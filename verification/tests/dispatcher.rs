use msip::protocol::{FrameFlags, FrameType, Header, MessageKind};
use msip::server::dispatcher::parse_publish_topic;
use msip::server::text::{read_text, same_text};
use msip::server::{Broker, ConnectionContext, Delivery, Dispatcher, Frame};
use tokio::sync::mpsc::error::TryRecvError;
use tokio::sync::mpsc::{unbounded_channel, UnboundedReceiver};

fn request(frame_type: FrameType, msg_id: u64, flags: FrameFlags, payload: &[u8]) -> Frame {
    Frame {
        header: Header::new(frame_type, MessageKind::Command, payload.len() as u32, msg_id, flags),
        payload: payload.to_vec(),
    }
}

fn publish_payload(topic: &[u8], body: &[u8]) -> Vec<u8> {
    let mut payload = (topic.len() as u16).to_be_bytes().to_vec();
    payload.extend_from_slice(topic);
    payload.extend_from_slice(body);
    payload
}

fn join(broker: &mut Broker, client_id: u64) -> (ConnectionContext, UnboundedReceiver<Frame>) {
    let (tx, rx) = unbounded_channel();
    broker.register_client(client_id, tx);
    (ConnectionContext { client_id, subscriptions: Vec::new() }, rx)
}

fn is_empty(rx: &mut UnboundedReceiver<Frame>) -> bool {
    matches!(rx.try_recv(), Err(TryRecvError::Empty))
}

fn pong(msg_id: u64) -> Frame {
    Frame {
        header: Header::new(FrameType::Pong, MessageKind::Event, 0, msg_id, FrameFlags::empty()),
        payload: Vec::new(),
    }
}

fn ack(msg_id: u64) -> Frame {
    Frame {
        header: Header::new(FrameType::Ack, MessageKind::State, 0, msg_id, FrameFlags::empty()),
        payload: Vec::new(),
    }
}

#[test]
fn ping_42_yields_pong_42() {
    let mut broker = Broker::new();
    let (mut ctx, mut rx) = join(&mut broker, 1);
    let out = Dispatcher::dispatch(
        &mut broker,
        &mut ctx,
        request(FrameType::Ping, 42, FrameFlags::empty(), b""),
    );
    let reply = out.reply.unwrap();
    assert_eq!(reply.header.frame_type, FrameType::Pong);
    assert_eq!(reply.header.msg_kind, MessageKind::Event);
    assert_eq!(reply.header.msg_id, 42);
    assert_eq!(reply.header.payload_len, 0);
    assert_eq!(reply.header.flags, FrameFlags::empty());
    assert!(reply.payload.is_empty());
    assert!(out.deliveries.is_empty());
    assert!(is_empty(&mut rx));
}

#[test]
fn ping_payload_and_flags_are_ignored() {
    let mut broker = Broker::new();
    let (mut ctx, _rx) = join(&mut broker, 1);
    let out = Dispatcher::dispatch(
        &mut broker,
        &mut ctx,
        request(FrameType::Ping, u64::MAX, FrameFlags::all(), b"ignored"),
    );
    assert_eq!(out.reply, Some(pong(u64::MAX)));
    assert_eq!(
        Dispatcher::handle_ping(request(FrameType::Ping, 7, FrameFlags::urgent(), b"x")),
        pong(7)
    );
}

#[test]
fn subscribe_with_ack_required_is_acknowledged() {
    let mut broker = Broker::new();
    let (mut ctx, mut rx) = join(&mut broker, 1);
    let out = Dispatcher::dispatch(
        &mut broker,
        &mut ctx,
        request(FrameType::Subscribe, 5, FrameFlags::ack_required(), b"t"),
    );
    assert_eq!(out.reply, Some(ack(5)));
    assert!(out.deliveries.is_empty());
    assert_eq!(ctx.subscriptions, vec!["t".to_string()]);
    assert!(broker.is_subscribed(1, "t"));

    let (mut publisher, _prx) = join(&mut broker, 2);
    let sent = request(FrameType::Publish, 6, FrameFlags::empty(), &publish_payload(b"t", b"P"));
    let out = Dispatcher::dispatch(&mut broker, &mut publisher, sent.clone());
    assert_eq!(out.reply, None);
    assert_eq!(out.deliveries, vec![Delivery { client_id: 1, accepted: true }]);
    assert_eq!(rx.try_recv().unwrap(), sent);
}

#[test]
fn subscribe_without_ack_required_still_takes_effect() {
    let mut broker = Broker::new();
    let (mut ctx, mut rx) = join(&mut broker, 1);
    let out = Dispatcher::dispatch(
        &mut broker,
        &mut ctx,
        request(FrameType::Subscribe, 5, FrameFlags::urgent(), b"t"),
    );
    assert_eq!(out.reply, None);
    assert!(ctx.subscriptions.is_empty());
    assert!(broker.is_subscribed(1, "t"));

    let (mut publisher, _prx) = join(&mut broker, 2);
    let sent = request(FrameType::Publish, 6, FrameFlags::empty(), &publish_payload(b"t", b"P"));
    let out = Dispatcher::dispatch(&mut broker, &mut publisher, sent.clone());
    assert_eq!(out.deliveries, vec![Delivery { client_id: 1, accepted: true }]);
    assert_eq!(rx.try_recv().unwrap(), sent);
}

#[test]
fn subscribe_with_invalid_utf8_fails_without_effect() {
    let mut broker = Broker::new();
    let (mut ctx, _rx) = join(&mut broker, 1);
    for payload in [&b"\xFF"[..], b"ab\xC3", b"\xC0\x80", b"\xED\xA0\x80", b"t\x80"] {
        let out = Dispatcher::dispatch(
            &mut broker,
            &mut ctx,
            request(FrameType::Subscribe, 5, FrameFlags::ack_required(), payload),
        );
        assert_eq!(out.reply, None);
        assert!(out.deliveries.is_empty());
    }
    assert!(ctx.subscriptions.is_empty());
    assert!(!broker.has_topic("t"));
    assert!(!broker.has_topic(""));
}

#[test]
fn subscribe_takes_the_whole_payload_as_topic() {
    let mut broker = Broker::new();
    let (mut ctx, _rx) = join(&mut broker, 1);
    let topic = "sensors/\u{2603}/temp";
    let out = Dispatcher::dispatch(
        &mut broker,
        &mut ctx,
        request(FrameType::Subscribe, 1, FrameFlags::ack_required(), topic.as_bytes()),
    );
    assert_eq!(out.reply, Some(ack(1)));
    assert!(broker.is_subscribed(1, topic));
    let out = Dispatcher::dispatch(
        &mut broker,
        &mut ctx,
        request(FrameType::Subscribe, 2, FrameFlags::ack_required(), b""),
    );
    assert_eq!(out.reply, Some(ack(2)));
    assert!(broker.is_subscribed(1, ""));
    assert_eq!(ctx.subscriptions, vec![topic.to_string(), String::new()]);
}

#[test]
fn unsubscribe_is_always_acknowledged() {
    let mut broker = Broker::new();
    let (mut ctx, mut rx) = join(&mut broker, 1);
    for (id, topic) in [(1u64, "t"), (2, "u"), (3, "t")] {
        Dispatcher::dispatch(
            &mut broker,
            &mut ctx,
            request(FrameType::Subscribe, id, FrameFlags::ack_required(), topic.as_bytes()),
        );
    }
    assert_eq!(ctx.subscriptions, vec!["t".to_string(), "u".to_string(), "t".to_string()]);

    let out = Dispatcher::dispatch(
        &mut broker,
        &mut ctx,
        request(FrameType::Unsubscribe, 9, FrameFlags::empty(), b"t"),
    );
    assert_eq!(out.reply, Some(ack(9)));
    assert_eq!(ctx.subscriptions, vec!["u".to_string()]);
    assert!(!broker.is_subscribed(1, "t"));
    assert!(broker.is_subscribed(1, "u"));

    // Unknown topic: still acknowledged, nothing changes.
    let out = Dispatcher::dispatch(
        &mut broker,
        &mut ctx,
        request(FrameType::Unsubscribe, 10, FrameFlags::ack_required(), b"nowhere"),
    );
    assert_eq!(out.reply, Some(ack(10)));
    assert_eq!(ctx.subscriptions, vec!["u".to_string()]);
    assert!(!broker.has_topic("nowhere"));

    let (mut publisher, _prx) = join(&mut broker, 2);
    let out = Dispatcher::dispatch(
        &mut broker,
        &mut publisher,
        request(FrameType::Publish, 11, FrameFlags::empty(), &publish_payload(b"t", b"P")),
    );
    assert!(out.deliveries.is_empty());
    assert!(is_empty(&mut rx));
}

#[test]
fn unsubscribe_with_invalid_utf8_fails_without_effect() {
    let mut broker = Broker::new();
    let (mut ctx, _rx) = join(&mut broker, 1);
    Dispatcher::dispatch(
        &mut broker,
        &mut ctx,
        request(FrameType::Subscribe, 1, FrameFlags::ack_required(), b"t"),
    );
    let out = Dispatcher::dispatch(
        &mut broker,
        &mut ctx,
        request(FrameType::Unsubscribe, 2, FrameFlags::empty(), b"t\xFF"),
    );
    assert_eq!(out.reply, None);
    assert_eq!(ctx.subscriptions, vec!["t".to_string()]);
    assert!(broker.is_subscribed(1, "t"));
}

#[test]
fn publish_rebroadcasts_the_whole_frame() {
    let mut broker = Broker::new();
    let (mut a, mut arx) = join(&mut broker, 1);
    let (mut b, mut brx) = join(&mut broker, 2);
    let (mut c, mut crx) = join(&mut broker, 3);
    Dispatcher::dispatch(
        &mut broker,
        &mut a,
        request(FrameType::Subscribe, 1, FrameFlags::ack_required(), b"t"),
    );
    Dispatcher::dispatch(
        &mut broker,
        &mut c,
        request(FrameType::Subscribe, 1, FrameFlags::ack_required(), b"other"),
    );

    let payload = publish_payload(b"t", b"application bytes \x00\xFF");
    let sent = Frame {
        header: Header::new(
            FrameType::Publish,
            MessageKind::Metric,
            payload.len() as u32,
            77,
            FrameFlags::all(),
        ),
        payload,
    };
    let out = Dispatcher::dispatch(&mut broker, &mut b, sent.clone());
    assert_eq!(out.reply, None);
    assert_eq!(out.deliveries, vec![Delivery { client_id: 1, accepted: true }]);

    let got = arx.try_recv().unwrap();
    assert_eq!(got.header, sent.header);
    assert_eq!(got.payload, sent.payload);
    assert_eq!(&got.payload[3..], b"application bytes \x00\xFF");
    assert!(is_empty(&mut arx));
    assert!(is_empty(&mut brx));
    assert!(is_empty(&mut crx));
    assert!(b.subscriptions.is_empty());
}

#[test]
fn publisher_subscribed_to_its_own_topic_receives_too() {
    let mut broker = Broker::new();
    let (mut a, mut arx) = join(&mut broker, 1);
    Dispatcher::dispatch(
        &mut broker,
        &mut a,
        request(FrameType::Subscribe, 1, FrameFlags::empty(), b"t"),
    );
    let sent = request(FrameType::Publish, 2, FrameFlags::empty(), &publish_payload(b"t", b""));
    let out = Dispatcher::dispatch(&mut broker, &mut a, sent.clone());
    assert_eq!(out.deliveries, vec![Delivery { client_id: 1, accepted: true }]);
    assert_eq!(arx.try_recv().unwrap(), sent);
}

#[test]
fn malformed_publish_is_dropped_and_ping_still_answered() {
    let mut broker = Broker::new();
    let (mut a, mut arx) = join(&mut broker, 1);
    let (mut b, mut brx) = join(&mut broker, 2);
    Dispatcher::dispatch(
        &mut broker,
        &mut a,
        request(FrameType::Subscribe, 1, FrameFlags::ack_required(), b"t"),
    );
    let malformed: [&[u8]; 7] = [
        b"",
        b"\x00",
        b"\x00\x02t",
        b"\x00\x05topi",
        b"\xFF\xFFt",
        b"\x00\x01\xFF",
        b"\x00\x02t\xC3",
    ];
    for payload in malformed {
        let out = Dispatcher::dispatch(
            &mut broker,
            &mut b,
            request(FrameType::Publish, 3, FrameFlags::ack_required(), payload),
        );
        assert_eq!(out.reply, None);
        assert!(out.deliveries.is_empty());
        assert!(is_empty(&mut arx));
        assert!(is_empty(&mut brx));
        assert!(broker.is_subscribed(1, "t"));
        assert!(broker.client_tx(2).is_some());
        assert!(b.subscriptions.is_empty());

        let out = Dispatcher::dispatch(
            &mut broker,
            &mut b,
            request(FrameType::Ping, 4, FrameFlags::empty(), b""),
        );
        assert_eq!(out.reply, Some(pong(4)));
    }
}

#[test]
fn other_frame_types_do_nothing() {
    let mut broker = Broker::new();
    let (mut a, mut arx) = join(&mut broker, 1);
    Dispatcher::dispatch(
        &mut broker,
        &mut a,
        request(FrameType::Subscribe, 1, FrameFlags::ack_required(), b"t"),
    );
    for frame_type in [
        FrameType::Hello,
        FrameType::Event,
        FrameType::Ack,
        FrameType::Error,
        FrameType::Pong,
        FrameType::Close,
    ] {
        let out = Dispatcher::dispatch(
            &mut broker,
            &mut a,
            request(frame_type, 8, FrameFlags::ack_required(), b"t"),
        );
        assert_eq!(out.reply, None);
        assert!(out.deliveries.is_empty());
    }
    assert!(broker.is_subscribed(1, "t"));
    assert!(broker.client_tx(1).is_some());
    assert_eq!(a.subscriptions, vec!["t".to_string()]);
    assert!(is_empty(&mut arx));
}

#[test]
fn publish_topic_is_parsed_from_the_prefix() {
    assert_eq!(parse_publish_topic(b"\x00\x01t"), Some("t"));
    assert_eq!(parse_publish_topic(b"\x00\x01tP"), Some("t"));
    assert_eq!(parse_publish_topic(b"\x00\x00"), Some(""));
    assert_eq!(parse_publish_topic(b"\x00\x00rest"), Some(""));
    assert_eq!(parse_publish_topic(b"\x00\x05topic and more"), Some("topic"));
    assert_eq!(parse_publish_topic("\u{0}\u{3}\u{2603}x".as_bytes()), Some("\u{2603}"));
    let mut long = vec![0x01, 0x00];
    long.extend_from_slice(&[b'a'; 256]);
    assert_eq!(parse_publish_topic(&long).map(|t| t.len()), Some(256));

    assert_eq!(parse_publish_topic(b""), None);
    assert_eq!(parse_publish_topic(b"\x00"), None);
    assert_eq!(parse_publish_topic(b"\x00\x02t"), None);
    assert_eq!(parse_publish_topic(b"\x01\x00t"), None);
    assert_eq!(parse_publish_topic(b"\xFF\xFF"), None);
    assert_eq!(parse_publish_topic(b"\x00\x01\x80"), None);
    // The prefix cuts a character in two.
    assert_eq!(parse_publish_topic("\u{0}\u{2}\u{2603}".as_bytes()), None);
}

#[test]
fn text_is_compared_character_by_character() {
    assert!(same_text("", ""));
    assert!(same_text("topic", "topic"));
    assert!(same_text("\u{2603}", "\u{2603}"));
    assert!(!same_text("topic", "Topic"));
    assert!(!same_text("topic", "topi"));
    assert!(!same_text("topi", "topic"));
    assert!(!same_text("", " "));
    assert!(!same_text("e\u{301}", "\u{e9}"));
}

#[test]
fn text_is_read_from_valid_utf8_only() {
    assert_eq!(read_text(b""), Some(""));
    assert_eq!(read_text(b"t"), Some("t"));
    assert_eq!(read_text(b"topic/with space"), Some("topic/with space"));
    let mixed = "caf\u{e9} \u{2603} \u{1F600}";
    assert_eq!(read_text(mixed.as_bytes()), Some(mixed));
    assert_eq!(read_text(b"\x00"), Some("\0"));
    assert_eq!(read_text(b"\x7F"), Some("\x7F"));

    // A lone continuation byte, a truncated sequence, an overlong encoding,
    // a surrogate, a value beyond the last scalar, and bytes that never occur.
    assert_eq!(read_text(b"\x80"), None);
    assert_eq!(read_text(b"\xC3"), None);
    assert_eq!(read_text(b"\xE2\x98"), None);
    assert_eq!(read_text(b"\xC0\x80"), None);
    assert_eq!(read_text(b"\xE0\x80\x80"), None);
    assert_eq!(read_text(b"\xED\xA0\x80"), None);
    assert_eq!(read_text(b"\xF4\x90\x80\x80"), None);
    assert_eq!(read_text(b"\xFE"), None);
    assert_eq!(read_text(b"\xFF"), None);
    assert_eq!(read_text(b"ok\xFFok"), None);
}
