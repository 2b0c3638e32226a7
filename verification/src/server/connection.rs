//! The life of one connection: accepted, active while frames arrive, and
//! terminated by a `Close`, by a frame that is owed no reply, or by a failure
//! of the stream.
//!
//! The machine decides; whoever owns the socket reads the frames, hands them
//! in as events and puts the frames that come back on the connection's queue.

use vstd::prelude::*;
use vstd::string::StringSliceAdditionalSpecFns;
use tokio::sync::mpsc::UnboundedSender;
use crate::protocol::flags::FrameFlags;
use crate::protocol::header::{FrameType, Header, MessageKind};
use crate::server::broker::{addressees, Broker, Registry};
use crate::server::dispatcher::{
    fan_out, is_reply, registry_after, reply_to, subscriptions_after, ConnectionContext,
    Dispatcher, Outcome,
};
use crate::server::frame::{Frame, FrameView};

verus! {

/// What an `Error` frame says.
pub const ERROR_TEXT: &'static str = "Invalid frame or unsupported operation";

/// Where a connection stands.
#[derive(Debug, Clone, Copy, PartialEq, Eq, Structural)]
pub enum ConnectionState {
    /// Frames are read and dispatched.
    Active,
    /// The connection is over: its client is unregistered and nothing more
    /// is done for it.
    Terminating,
}

/// What the inbound side of a connection saw.
#[derive(Debug)]
pub enum Event {
    /// A frame was read and its header decoded.
    Frame(Frame),
    /// The stream failed or closed, or a header did not decode.
    StreamFailed,
}

/// An event as a value.
pub enum EventView {
    Frame(FrameView),
    StreamFailed,
}

impl View for Event {
    type V = EventView;

    open spec fn view(&self) -> EventView {
        match self {
            Event::Frame(frame) => EventView::Frame(frame@),
            Event::StreamFailed => EventView::StreamFailed,
        }
    }
}

/// The one `Error` frame: message id 0 and the diagnostic text as payload.
pub open spec fn error_frame() -> FrameView {
    FrameView {
        header: Header::spec_new(
            FrameType::Error,
            MessageKind::Event,
            38,
            0,
            FrameFlags::empty(),
        ),
        payload: ERROR_TEXT.spec_bytes(),
    }
}

/// Whether `event` ends an active connection of `client_id`: the stream
/// failed, the frame is a `Close`, the frame is owed no reply, or the client
/// is no longer registered.
pub open spec fn ends_connection(r: Registry, client_id: u64, event: EventView) -> bool {
    match event {
        EventView::StreamFailed => true,
        EventView::Frame(frame) => {
            ||| frame.header.frame_type == FrameType::Close
            ||| reply_to(frame) is None
            ||| !r.is_registered(client_id)
        },
    }
}

/// The frame that goes on the connection's own queue after `event`: the
/// reply, or the `Error` frame where a frame other than `Close` is owed none.
/// Nothing goes to a client that is not registered.
pub open spec fn outbound_of(r: Registry, client_id: u64, event: EventView) -> Option<FrameView> {
    match event {
        EventView::StreamFailed => None,
        EventView::Frame(frame) => if frame.header.frame_type == FrameType::Close
            || !r.is_registered(client_id) {
            None
        } else {
            match reply_to(frame) {
                Some(reply) => Some(reply),
                None => Some(error_frame()),
            }
        },
    }
}

/// The registry after `event`: what dispatching the frame leaves, without
/// the client where the event ends the connection.
pub open spec fn registry_after_event(r: Registry, client_id: u64, event: EventView) -> Registry {
    let dispatched = match event {
        EventView::StreamFailed => r,
        EventView::Frame(frame) => registry_after(r, client_id, frame),
    };
    if ends_connection(r, client_id, event) {
        dispatched.unregister(client_id)
    } else {
        dispatched
    }
}

/// The connection's own list after `event`.
pub open spec fn subscriptions_after_event(list: Seq<Seq<char>>, event: EventView) -> Seq<
    Seq<char>,
> {
    match event {
        EventView::StreamFailed => list,
        EventView::Frame(frame) => subscriptions_after(list, frame),
    }
}

/// The clients that `event` fans a frame out to.
pub open spec fn fan_out_of(r: Registry, event: EventView) -> Set<u64> {
    match event {
        EventView::StreamFailed => Set::empty(),
        EventView::Frame(frame) => fan_out(r, frame),
    }
}

/// The `Error` frame is well formed: its header announces the 38 bytes of its
/// payload, which are the ASCII codes of the diagnostic text, one byte for each
/// character.
pub proof fn lemma_error_frame()
    ensures
        error_frame().header.wf(),
        error_frame().header.frame_type == FrameType::Error,
        error_frame().header.msg_id == 0,
        error_frame().payload.len() == error_frame().header.payload_len == 38,
        ERROR_TEXT@.len() == 38,
        forall|i: int| 0 <= i < 38 ==> error_frame().payload[i] == ERROR_TEXT@[i] as u8,
{
    reveal_strlit("Invalid frame or unsupported operation");
    vstd::string::is_ascii_spec_bytes(ERROR_TEXT);
    FrameFlags::lemma_named_sets();
}

/// A connection that ends leaves nothing behind: whatever ended it, a
/// `Close`, a frame that is owed no reply or a failure of the stream, its
/// client is no longer registered, is subscribed to no topic and is no
/// recipient of any publish. The other clients are recipients as dispatch left
/// them.
pub proof fn lemma_ended_connection_receives_nothing(
    r: Registry,
    client_id: u64,
    event: EventView,
    topic: Seq<char>,
    other: u64,
)
    requires
        ends_connection(r, client_id, event),
        other != client_id,
    ensures
        !registry_after_event(r, client_id, event).is_registered(client_id),
        !registry_after_event(r, client_id, event).is_subscribed(client_id, topic),
        !registry_after_event(r, client_id, event).recipients(topic).contains(client_id),
        registry_after_event(r, client_id, event).recipients(topic).contains(other) == (
        match event {
            EventView::StreamFailed => r,
            EventView::Frame(frame) => registry_after(r, client_id, frame),
        }).recipients(topic).contains(other),
{
}

/// A `Close` ends the connection without a frame on its queue; every other
/// frame that is owed no reply puts exactly the `Error` frame there, and a
/// frame that is owed a reply puts the reply there and keeps the connection.
pub proof fn lemma_outbound(r: Registry, client_id: u64, frame: FrameView)
    requires
        r.is_registered(client_id),
    ensures
        frame.header.frame_type == FrameType::Close ==> {
            &&& outbound_of(r, client_id, EventView::Frame(frame)) is None
            &&& ends_connection(r, client_id, EventView::Frame(frame))
        },
        frame.header.frame_type != FrameType::Close && reply_to(frame) is None ==> {
            &&& outbound_of(r, client_id, EventView::Frame(frame)) == Some(error_frame())
            &&& ends_connection(r, client_id, EventView::Frame(frame))
        },
        reply_to(frame) is Some ==> {
            &&& outbound_of(r, client_id, EventView::Frame(frame)) == reply_to(frame)
            &&& !ends_connection(r, client_id, EventView::Frame(frame))
        },
{
}

/// One accepted connection.
#[derive(Debug)]
pub struct Connection {
    pub context: ConnectionContext,
    pub state: ConnectionState,
}

impl Connection {
    /// Takes a new connection in: registers `client_id` with its queue and
    /// starts active, subscribed to nothing.
    pub fn accept(broker: &mut Broker, client_id: u64, tx: UnboundedSender<Frame>) -> (conn:
        Connection)
        requires
            old(broker).wf(),
        ensures
            final(broker).wf(),
            final(broker)@ == old(broker)@.register(client_id, tx),
            conn.state == ConnectionState::Active,
            conn.context.client_id == client_id,
            conn.context@.subscriptions == Seq::<Seq<char>>::empty(),
    {
        broker.register_client(client_id, tx);
        let conn = Connection {
            context: ConnectionContext { client_id, subscriptions: Vec::new() },
            state: ConnectionState::Active,
        };
        assert(conn.context@.subscriptions =~= Seq::<Seq<char>>::empty());
        conn
    }

    /// Ends the connection: the client leaves the registry and every topic.
    fn terminate(&mut self, broker: &mut Broker)
        requires
            old(broker).wf(),
        ensures
            final(broker).wf(),
            final(broker)@ == old(broker)@.unregister(old(self).context.client_id),
            final(self).state == ConnectionState::Terminating,
            final(self).context == old(self).context,
    {
        broker.unregister_client(self.context.client_id);
        self.state = ConnectionState::Terminating;
    }

    /// Takes one event of the inbound side.
    ///
    /// An active connection dispatches the frame. A reply goes on the
    /// connection's queue and the connection stays active. A frame that is
    /// owed no reply gets the `Error` frame and ends the connection, unless
    /// it is a `Close`, which ends it silently, as a failure of the stream
    /// does. That holds of a publish and of a subscription without
    /// `ACK_REQUIRED` too: they take effect, and the connection ends. Ending
    /// unregisters the client. A connection that is over ignores every event.
    pub fn step(&mut self, broker: &mut Broker, event: Event) -> (out: Outcome)
        requires
            old(broker).wf(),
        ensures
            final(broker).wf(),
            final(self).context.client_id == old(self).context.client_id,
            old(self).state == ConnectionState::Terminating ==> {
                &&& final(self).state == ConnectionState::Terminating
                &&& final(broker)@ == old(broker)@
                &&& final(self).context@ == old(self).context@
                &&& out.reply is None
                &&& out.deliveries@.len() == 0
            },
            old(self).state == ConnectionState::Active ==> {
                &&& final(self).state == if ends_connection(
                    old(broker)@,
                    old(self).context.client_id,
                    event@,
                ) {
                    ConnectionState::Terminating
                } else {
                    ConnectionState::Active
                }
                &&& final(broker)@ == registry_after_event(
                    old(broker)@,
                    old(self).context.client_id,
                    event@,
                )
                &&& final(self).context@.subscriptions == subscriptions_after_event(
                    old(self).context@.subscriptions,
                    event@,
                )
                &&& is_reply(
                    out.reply,
                    outbound_of(old(broker)@, old(self).context.client_id, event@),
                )
                &&& addressees(out.deliveries@).no_duplicates()
                &&& addressees(out.deliveries@).to_set() == fan_out_of(old(broker)@, event@)
            },
            out.reply matches Some(f) ==> f.wf() && f.header.wf(),
    {
        if self.state == ConnectionState::Terminating {
            return Outcome { reply: None, deliveries: Vec::new() };
        }
        let frame = match event {
            Event::Frame(frame) => frame,
            Event::StreamFailed => {
                self.terminate(broker);
                return Outcome { reply: None, deliveries: Vec::new() };
            },
        };
        if frame.header.frame_type == FrameType::Close {
            self.terminate(broker);
            return Outcome { reply: None, deliveries: Vec::new() };
        }
        let dispatched = Dispatcher::dispatch(broker, &mut self.context, frame);
        let registered = broker.client_tx(self.context.client_id).is_some();
        match dispatched.reply {
            Some(reply) => {
                if registered {
                    Outcome { reply: Some(reply), deliveries: dispatched.deliveries }
                } else {
                    self.terminate(broker);
                    Outcome { reply: None, deliveries: dispatched.deliveries }
                }
            },
            None => {
                let reply = if registered {
                    Some(Self::error_reply())
                } else {
                    None
                };
                self.terminate(broker);
                Outcome { reply, deliveries: dispatched.deliveries }
            },
        }
    }

    /// The `Error` frame.
    fn error_reply() -> (frame: Frame)
        ensures
            frame@ == error_frame(),
            frame.wf(),
            frame.header.wf(),
    {
        proof {
            lemma_error_frame();
        }
        let payload = vstd::slice::slice_to_vec(ERROR_TEXT.as_bytes());
        Frame {
            header: Header::new(
                FrameType::Error,
                MessageKind::Event,
                payload.len() as u32,
                0,
                FrameFlags::empty(),
            ),
            payload,
        }
    }
}

} // verus!
