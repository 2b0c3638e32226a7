//! The protocol state machine: what one decoded frame does to the broker and
//! to the connection's own bookkeeping, and what is sent back.

use vstd::prelude::*;
use crate::protocol::flags::FrameFlags;
use crate::protocol::header::{FrameType, Header, MessageKind};
use crate::protocol::wire::{be_value, u16_from_be};
use crate::server::broker::{addressees, Broker, Delivery, Registry};
use crate::server::frame::{Frame, FrameView};
use crate::server::text::{read_text, same_text, utf8_text};

verus! {

/// What one connection keeps for itself: its client id and a list of the
/// topics it subscribed to with an acknowledgement. The list is bookkeeping;
/// the broker's registry is what counts.
#[derive(Debug)]
pub struct ConnectionContext {
    pub client_id: u64,
    pub subscriptions: Vec<String>,
}

/// A connection context as a value.
pub struct ContextView {
    pub client_id: u64,
    pub subscriptions: Seq<Seq<char>>,
}

impl View for ConnectionContext {
    type V = ContextView;

    open spec fn view(&self) -> ContextView {
        ContextView {
            client_id: self.client_id,
            subscriptions: self.subscriptions@.map_values(|s: String| s@),
        }
    }
}

/// What handling a frame asks of the owner of the socket, and what it did
/// besides changing the broker and the context.
#[derive(Debug)]
pub struct Outcome {
    /// The frame to put on the sender's own queue, if any.
    pub reply: Option<Frame>,
    /// The deliveries that a publish attempted.
    pub deliveries: Vec<Delivery>,
}

/// The reply to a ping: a `Pong` that echoes the message id and carries
/// nothing.
pub open spec fn pong(msg_id: u64) -> FrameView {
    FrameView {
        header: Header::spec_new(
            FrameType::Pong,
            MessageKind::Event,
            0,
            msg_id,
            FrameFlags::empty(),
        ),
        payload: Seq::empty(),
    }
}

/// The acknowledgement of a request: an `Ack` that echoes the message id and
/// carries nothing.
pub open spec fn ack(msg_id: u64) -> FrameView {
    FrameView {
        header: Header::spec_new(
            FrameType::Ack,
            MessageKind::State,
            0,
            msg_id,
            FrameFlags::empty(),
        ),
        payload: Seq::empty(),
    }
}

/// The topic that a publish payload names: a two-byte big-endian length, then
/// that many bytes of UTF-8. `None` where the payload is shorter than the
/// prefix, shorter than the prefix announces, or the name is not UTF-8. What
/// follows the name belongs to the application.
pub open spec fn publish_topic(payload: Seq<u8>) -> Option<Seq<char>> {
    if payload.len() < 2 {
        None
    } else {
        let len = be_value(payload.subrange(0, 2)) as int;
        if payload.len() < 2 + len {
            None
        } else {
            utf8_text(payload.subrange(2, 2 + len))
        }
    }
}

/// `list` without the entries that spell `topic`, the others in their order.
pub open spec fn without_topic(list: Seq<Seq<char>>, topic: Seq<char>) -> Seq<Seq<char>> {
    list.filter(|t: Seq<char>| t != topic)
}

/// The registry that dispatching `frame` for `client_id` leaves behind.
pub open spec fn registry_after(r: Registry, client_id: u64, frame: FrameView) -> Registry {
    match frame.header.frame_type {
        FrameType::Subscribe => match utf8_text(frame.payload) {
            Some(topic) => r.subscribe(client_id, topic),
            None => r,
        },
        FrameType::Unsubscribe => match utf8_text(frame.payload) {
            Some(topic) => r.unsubscribe(client_id, topic),
            None => r,
        },
        _ => r,
    }
}

/// The connection's own list after `frame`: an acknowledged subscription is
/// appended, an unsubscription removes every entry of its topic.
pub open spec fn subscriptions_after(list: Seq<Seq<char>>, frame: FrameView) -> Seq<Seq<char>> {
    match frame.header.frame_type {
        FrameType::Subscribe => match utf8_text(frame.payload) {
            Some(topic) => if frame.header.flags.contains(FrameFlags::ack_required()) {
                list.push(topic)
            } else {
                list
            },
            None => list,
        },
        FrameType::Unsubscribe => match utf8_text(frame.payload) {
            Some(topic) => without_topic(list, topic),
            None => list,
        },
        _ => list,
    }
}

/// The reply that `frame` is owed, if any.
pub open spec fn reply_to(frame: FrameView) -> Option<FrameView> {
    match frame.header.frame_type {
        FrameType::Ping => Some(pong(frame.header.msg_id)),
        FrameType::Subscribe => if utf8_text(frame.payload) is Some
            && frame.header.flags.contains(FrameFlags::ack_required()) {
            Some(ack(frame.header.msg_id))
        } else {
            None
        },
        FrameType::Unsubscribe => if utf8_text(frame.payload) is Some {
            Some(ack(frame.header.msg_id))
        } else {
            None
        },
        _ => None,
    }
}

/// The clients that `frame` is fanned out to: the registered subscribers of
/// the topic that a well-formed publish names, and nobody otherwise.
pub open spec fn fan_out(r: Registry, frame: FrameView) -> Set<u64> {
    match frame.header.frame_type {
        FrameType::Publish => match publish_topic(frame.payload) {
            Some(topic) => r.recipients(topic),
            None => Set::empty(),
        },
        _ => Set::empty(),
    }
}

/// Whether `reply` is the frame `expected`, or there is neither.
pub open spec fn is_reply(reply: Option<Frame>, expected: Option<FrameView>) -> bool {
    match reply {
        Some(frame) => expected == Some(frame@),
        None => expected is None,
    }
}

/// Every ping is answered by exactly one frame: a `Pong` with the ping's
/// message id and an empty payload. Nothing else happens.
pub proof fn lemma_ping_gets_pong(
    r: Registry,
    list: Seq<Seq<char>>,
    client_id: u64,
    frame: FrameView,
)
    requires
        frame.header.frame_type == FrameType::Ping,
    ensures
        reply_to(frame) == Some(pong(frame.header.msg_id)),
        pong(frame.header.msg_id).header.frame_type == FrameType::Pong,
        pong(frame.header.msg_id).header.msg_id == frame.header.msg_id,
        pong(frame.header.msg_id).header.payload_len == 0,
        pong(frame.header.msg_id).payload.len() == 0,
        registry_after(r, client_id, frame) == r,
        subscriptions_after(list, frame) == list,
        fan_out(r, frame) == Set::<u64>::empty(),
{
}

/// A subscription takes effect with or without `ACK_REQUIRED`: a registered
/// client is a recipient of the next publish to the topic either way. The
/// flag decides only whether an `Ack` with the request's message id goes
/// back and whether the topic is noted in the connection's own list.
pub proof fn lemma_subscribe_takes_effect(
    r: Registry,
    list: Seq<Seq<char>>,
    client_id: u64,
    frame: FrameView,
    topic: Seq<char>,
)
    requires
        frame.header.frame_type == FrameType::Subscribe,
        utf8_text(frame.payload) == Some(topic),
        r.is_registered(client_id),
    ensures
        registry_after(r, client_id, frame) == r.subscribe(client_id, topic),
        registry_after(r, client_id, frame).recipients(topic).contains(client_id),
        frame.header.flags.contains(FrameFlags::ack_required()) ==> {
            &&& reply_to(frame) == Some(ack(frame.header.msg_id))
            &&& subscriptions_after(list, frame) == list.push(topic)
        },
        !frame.header.flags.contains(FrameFlags::ack_required()) ==> {
            &&& reply_to(frame) is None
            &&& subscriptions_after(list, frame) == list
        },
{
}

/// An unsubscription is always acknowledged, whatever its flags, and the
/// client is no recipient of the topic afterwards.
pub proof fn lemma_unsubscribe_is_acknowledged(
    r: Registry,
    client_id: u64,
    frame: FrameView,
    topic: Seq<char>,
)
    requires
        frame.header.frame_type == FrameType::Unsubscribe,
        utf8_text(frame.payload) == Some(topic),
    ensures
        reply_to(frame) == Some(ack(frame.header.msg_id)),
        registry_after(r, client_id, frame) == r.unsubscribe(client_id, topic),
        !registry_after(r, client_id, frame).recipients(topic).contains(client_id),
{
}

/// A publish whose payload is shorter than the two-byte prefix, or shorter
/// than the prefix announces, is dropped: the broker and the connection's
/// list stay as they are, nobody receives anything and nothing goes back.
/// Dispatch goes on after it: a ping that follows is answered.
pub proof fn lemma_malformed_publish_is_dropped(
    r: Registry,
    list: Seq<Seq<char>>,
    client_id: u64,
    frame: FrameView,
    next: FrameView,
)
    requires
        frame.header.frame_type == FrameType::Publish,
        frame.payload.len() < 2 || frame.payload.len() < 2 + be_value(frame.payload.subrange(0, 2)),
        next.header.frame_type == FrameType::Ping,
    ensures
        publish_topic(frame.payload) is None,
        registry_after(r, client_id, frame) == r,
        subscriptions_after(list, frame) == list,
        fan_out(r, frame) == Set::<u64>::empty(),
        reply_to(frame) is None,
        reply_to(next) == Some(pong(next.header.msg_id)),
{
}

/// No frame changes who is registered, and no frame removes a topic.
pub proof fn lemma_dispatch_keeps_clients_and_topics(
    r: Registry,
    client_id: u64,
    frame: FrameView,
    topic: Seq<char>,
)
    ensures
        registry_after(r, client_id, frame).clients == r.clients,
        r.topics.contains_key(topic) ==> registry_after(r, client_id, frame).topics.contains_key(
            topic,
        ),
{
}

/// Reads the topic that a publish payload names.
pub fn parse_publish_topic(payload: &[u8]) -> (topic: Option<&str>)
    ensures
        match topic {
            Some(t) => publish_topic(payload@) == Some(t@),
            None => publish_topic(payload@) is None,
        },
{
    if payload.len() < 2 {
        return None;
    }
    assert(payload@.subrange(0, 2) =~= [payload@[0], payload@[1]]@);
    let len = u16_from_be([payload[0], payload[1]]) as usize;
    if payload.len() - 2 < len {
        return None;
    }
    read_text(vstd::slice::slice_subrange(payload, 2, 2 + len))
}

/// The stateless entry points of the protocol.
pub struct Dispatcher;

impl Dispatcher {
    /// Answers a ping: a `Pong` with the same message id and no payload.
    pub fn handle_ping(frame: Frame) -> (reply: Frame)
        ensures
            reply@ == pong(frame.header.msg_id),
            reply.wf(),
            reply.header.wf(),
    {
        Frame {
            header: Header::new(
                FrameType::Pong,
                MessageKind::Event,
                0,
                frame.header.msg_id,
                FrameFlags::empty(),
            ),
            payload: Vec::new(),
        }
    }

    /// Subscribes the connection to the topic that the payload spells. With
    /// `ACK_REQUIRED` the topic is also noted in the context and an `Ack`
    /// goes back; without it nothing goes back, though the subscription
    /// stands. A payload that is not UTF-8 changes nothing and gets no reply.
    fn handle_subscribe(
        broker: &mut Broker,
        context: &mut ConnectionContext,
        frame: Frame,
    ) -> (reply: Option<Frame>)
        requires
            old(broker).wf(),
            frame.header.frame_type == FrameType::Subscribe,
        ensures
            final(broker).wf(),
            final(broker)@ == registry_after(old(broker)@, old(context).client_id, frame@),
            final(context).client_id == old(context).client_id,
            final(context)@.subscriptions == subscriptions_after(
                old(context)@.subscriptions,
                frame@,
            ),
            is_reply(reply, reply_to(frame@)),
            reply matches Some(f) ==> f.wf() && f.header.wf(),
    {
        let topic = match read_text(frame.payload.as_slice()) {
            Some(text) => text.to_owned(),
            None => {
                return None;
            },
        };
        broker.subscribe(context.client_id, topic.clone());
        if !frame.header.flags.contains(FrameFlags::ack_required()) {
            return None;
        }
        context.subscriptions.push(topic);
        assert(context@.subscriptions =~= old(context)@.subscriptions.push(topic@));
        Some(
            Frame {
                header: Header::new(
                    FrameType::Ack,
                    MessageKind::State,
                    0,
                    frame.header.msg_id,
                    FrameFlags::empty(),
                ),
                payload: Vec::new(),
            },
        )
    }

    /// Unsubscribes the connection from the topic that the payload spells,
    /// drops the topic from the context's list and always sends an `Ack`. A
    /// payload that is not UTF-8 changes nothing and gets no reply.
    fn handle_unsubscribe(
        broker: &mut Broker,
        context: &mut ConnectionContext,
        frame: Frame,
    ) -> (reply: Option<Frame>)
        requires
            old(broker).wf(),
            frame.header.frame_type == FrameType::Unsubscribe,
        ensures
            final(broker).wf(),
            final(broker)@ == registry_after(old(broker)@, old(context).client_id, frame@),
            final(context).client_id == old(context).client_id,
            final(context)@.subscriptions == subscriptions_after(
                old(context)@.subscriptions,
                frame@,
            ),
            is_reply(reply, reply_to(frame@)),
            reply matches Some(f) ==> f.wf() && f.header.wf(),
    {
        let topic = match read_text(frame.payload.as_slice()) {
            Some(text) => text,
            None => {
                return None;
            },
        };
        broker.unsubscribe(context.client_id, topic);
        forget_topic(&mut context.subscriptions, topic);
        Some(
            Frame {
                header: Header::new(
                    FrameType::Ack,
                    MessageKind::State,
                    0,
                    frame.header.msg_id,
                    FrameFlags::empty(),
                ),
                payload: Vec::new(),
            },
        )
    }

    /// Fans a publish out: the whole frame, header and payload unchanged,
    /// goes to every registered subscriber of the topic that the payload
    /// names. A payload that names no topic is dropped without a trace.
    fn handle_publish(broker: &Broker, frame: Frame) -> (deliveries: Vec<Delivery>)
        requires
            broker.wf(),
            frame.header.frame_type == FrameType::Publish,
        ensures
            addressees(deliveries@).no_duplicates(),
            addressees(deliveries@).to_set() == fan_out(broker@, frame@),
    {
        let outgoing = frame.clone();
        match parse_publish_topic(frame.payload.as_slice()) {
            Some(topic) => broker.publish(topic, outgoing),
            None => Vec::new(),
        }
    }

    /// Handles one decoded frame for the connection of `context`.
    ///
    /// `Ping` is answered with a `Pong`. `Subscribe`, `Unsubscribe` and
    /// `Publish` act on the broker as their handlers say. Every other frame
    /// type, `Close` among them, does nothing and gets no reply. That no
    /// reply is owed and that a request was malformed look the same here.
    pub fn dispatch(broker: &mut Broker, context: &mut ConnectionContext, frame: Frame) -> (out:
        Outcome)
        requires
            old(broker).wf(),
        ensures
            final(broker).wf(),
            final(broker)@ == registry_after(old(broker)@, old(context).client_id, frame@),
            final(context).client_id == old(context).client_id,
            final(context)@.subscriptions == subscriptions_after(
                old(context)@.subscriptions,
                frame@,
            ),
            is_reply(out.reply, reply_to(frame@)),
            out.reply matches Some(f) ==> f.wf() && f.header.wf(),
            addressees(out.deliveries@).no_duplicates(),
            addressees(out.deliveries@).to_set() == fan_out(old(broker)@, frame@),
    {
        match frame.header.frame_type {
            FrameType::Ping => Outcome {
                reply: Some(Self::handle_ping(frame)),
                deliveries: Vec::new(),
            },
            FrameType::Subscribe => Outcome {
                reply: Self::handle_subscribe(broker, context, frame),
                deliveries: Vec::new(),
            },
            FrameType::Unsubscribe => Outcome {
                reply: Self::handle_unsubscribe(broker, context, frame),
                deliveries: Vec::new(),
            },
            FrameType::Publish => Outcome {
                reply: None,
                deliveries: Self::handle_publish(broker, frame),
            },
            _ => Outcome { reply: None, deliveries: Vec::new() },
        }
    }
}

/// Removes every entry that spells `topic` from `list`, keeping the others in
/// their order.
fn forget_topic(list: &mut Vec<String>, topic: &str)
    ensures
        final(list)@.map_values(|s: String| s@) == without_topic(
            old(list)@.map_values(|s: String| s@),
            topic@,
        ),
{
    let mut all: Vec<String> = Vec::new();
    std::mem::swap(list, &mut all);
    let ghost names = all@.map_values(|s: String| s@);
    let ghost keep = |t: Seq<char>| t != topic@;
    for entry in it: all
        invariant
            it.seq() == all@,
            names == all@.map_values(|s: String| s@),
            keep == |t: Seq<char>| t != topic@,
            list@.map_values(|s: String| s@) == names.take(it.index()).filter(keep),
    {
        proof {
            let n = it.index();
            assert(names.take(n + 1) =~= names.take(n) + seq![names[n]]);
            Seq::filter_distributes_over_add(names.take(n), seq![names[n]], keep);
            reveal_with_fuel(Seq::filter, 2);
            assert(seq![names[n]].drop_last() =~= Seq::<Seq<char>>::empty());
        }
        if !same_text(entry.as_str(), topic) {
            let ghost before = list@.map_values(|s: String| s@);
            list.push(entry);
            assert(list@.map_values(|s: String| s@) =~= before.push(entry@));
        }
    }
    assert(names.take(names.len() as int) =~= names);
}

} // verus!
