use msip::protocol::{FrameFlags, FrameType, Header, MessageKind};
use msip::server::{Broker, Delivery, Frame};
use tokio::sync::mpsc::error::TryRecvError;
use tokio::sync::mpsc::{unbounded_channel, UnboundedReceiver};

fn frame(msg_id: u64, payload: &[u8]) -> Frame {
    Frame {
        header: Header::new(
            FrameType::Publish,
            MessageKind::Event,
            payload.len() as u32,
            msg_id,
            FrameFlags::empty(),
        ),
        payload: payload.to_vec(),
    }
}

fn join(broker: &mut Broker, client_id: u64) -> UnboundedReceiver<Frame> {
    let (tx, rx) = unbounded_channel();
    broker.register_client(client_id, tx);
    rx
}

fn sorted(mut report: Vec<Delivery>) -> Vec<Delivery> {
    report.sort_by_key(|d| d.client_id);
    report
}

fn is_empty(rx: &mut UnboundedReceiver<Frame>) -> bool {
    matches!(rx.try_recv(), Err(TryRecvError::Empty))
}

#[test]
fn new_broker_knows_nobody() {
    let broker = Broker::new();
    assert!(broker.client_tx(1).is_none());
    assert!(!broker.has_topic("t"));
    assert!(!broker.is_subscribed(1, "t"));
    assert_eq!(broker.publish("t", frame(1, b"x")), vec![]);
}

#[test]
fn subscriber_receives_the_published_frame() {
    let mut broker = Broker::new();
    let mut a = join(&mut broker, 1);
    let mut b = join(&mut broker, 2);
    broker.subscribe(1, "t".to_string());

    let sent = frame(7, b"\x00\x01tpayload");
    let report = broker.publish("t", sent.clone());
    assert_eq!(report, vec![Delivery { client_id: 1, accepted: true }]);
    assert_eq!(a.try_recv().unwrap(), sent);
    assert!(is_empty(&mut a));
    assert!(is_empty(&mut b));
}

#[test]
fn non_subscribers_receive_nothing() {
    let mut broker = Broker::new();
    let mut a = join(&mut broker, 1);
    let mut b = join(&mut broker, 2);
    let mut c = join(&mut broker, 3);
    broker.subscribe(1, "t".to_string());
    broker.subscribe(2, "u".to_string());

    let report = broker.publish("t", frame(1, b"x"));
    assert_eq!(report, vec![Delivery { client_id: 1, accepted: true }]);
    assert!(a.try_recv().is_ok());
    assert!(is_empty(&mut b));
    assert!(is_empty(&mut c));
}

#[test]
fn publish_to_unknown_topic_reaches_nobody() {
    let mut broker = Broker::new();
    let mut a = join(&mut broker, 1);
    broker.subscribe(1, "t".to_string());
    assert_eq!(broker.publish("T", frame(1, b"x")), vec![]);
    assert_eq!(broker.publish("", frame(1, b"x")), vec![]);
    assert_eq!(broker.publish("tt", frame(1, b"x")), vec![]);
    assert!(is_empty(&mut a));
}

#[test]
fn unsubscribed_client_receives_nothing() {
    let mut broker = Broker::new();
    let mut a = join(&mut broker, 1);
    let mut b = join(&mut broker, 2);
    broker.subscribe(1, "t".to_string());
    broker.subscribe(2, "t".to_string());
    broker.unsubscribe(1, "t");

    assert!(!broker.is_subscribed(1, "t"));
    assert!(broker.is_subscribed(2, "t"));
    let report = broker.publish("t", frame(1, b"x"));
    assert_eq!(report, vec![Delivery { client_id: 2, accepted: true }]);
    assert!(is_empty(&mut a));
    assert!(b.try_recv().is_ok());
}

#[test]
fn unsubscribe_is_a_no_op_without_topic_or_membership() {
    let mut broker = Broker::new();
    let _a = join(&mut broker, 1);
    broker.unsubscribe(1, "nowhere");
    assert!(!broker.has_topic("nowhere"));
    broker.subscribe(1, "t".to_string());
    broker.unsubscribe(2, "t");
    assert!(broker.is_subscribed(1, "t"));
    broker.unsubscribe(1, "t");
    broker.unsubscribe(1, "t");
    assert!(!broker.is_subscribed(1, "t"));
}

#[test]
fn unregistered_client_is_purged_from_every_topic() {
    let mut broker = Broker::new();
    let mut a = join(&mut broker, 1);
    let mut b = join(&mut broker, 2);
    for topic in ["t", "u", "v"] {
        broker.subscribe(1, topic.to_string());
        broker.subscribe(2, topic.to_string());
    }
    broker.unregister_client(1);

    assert!(broker.client_tx(1).is_none());
    assert!(broker.client_tx(2).is_some());
    for topic in ["t", "u", "v"] {
        assert!(!broker.is_subscribed(1, topic));
        assert!(broker.is_subscribed(2, topic));
        let report = broker.publish(topic, frame(1, b"x"));
        assert_eq!(report, vec![Delivery { client_id: 2, accepted: true }]);
        assert!(b.try_recv().is_ok());
    }
    // Nothing was queued for the client, and its handle is gone.
    assert!(matches!(a.try_recv(), Err(TryRecvError::Disconnected)));
}

#[test]
fn closed_handle_does_not_stop_the_others() {
    let mut broker = Broker::new();
    let b = join(&mut broker, 2);
    let mut c = join(&mut broker, 3);
    broker.subscribe(2, "t".to_string());
    broker.subscribe(3, "t".to_string());
    drop(b);

    let sent = frame(9, b"x");
    let report = sorted(broker.publish("t", sent.clone()));
    assert_eq!(
        report,
        vec![
            Delivery { client_id: 2, accepted: false },
            Delivery { client_id: 3, accepted: true },
        ]
    );
    assert_eq!(c.try_recv().unwrap(), sent);
    // A refused delivery unsubscribes nobody.
    assert!(broker.is_subscribed(2, "t"));
    assert!(broker.client_tx(2).is_some());
}

#[test]
fn two_subscribers_both_receive() {
    let mut broker = Broker::new();
    let mut b = join(&mut broker, 2);
    let mut c = join(&mut broker, 3);
    broker.subscribe(2, "t".to_string());
    broker.subscribe(3, "t".to_string());

    let sent = frame(9, b"\x00\x01thello");
    let report = sorted(broker.publish("t", sent.clone()));
    assert_eq!(
        report,
        vec![
            Delivery { client_id: 2, accepted: true },
            Delivery { client_id: 3, accepted: true },
        ]
    );
    assert_eq!(b.try_recv().unwrap(), sent);
    assert_eq!(c.try_recv().unwrap(), sent);
    assert!(is_empty(&mut b));
    assert!(is_empty(&mut c));
}

#[test]
fn subscribing_twice_delivers_once() {
    let mut broker = Broker::new();
    let mut a = join(&mut broker, 1);
    broker.subscribe(1, "t".to_string());
    broker.subscribe(1, "t".to_string());
    let report = broker.publish("t", frame(1, b"x"));
    assert_eq!(report, vec![Delivery { client_id: 1, accepted: true }]);
    assert!(a.try_recv().is_ok());
    assert!(is_empty(&mut a));
}

#[test]
fn subscriber_without_handle_is_skipped() {
    let mut broker = Broker::new();
    broker.subscribe(5, "t".to_string());
    assert!(broker.is_subscribed(5, "t"));
    assert_eq!(broker.publish("t", frame(1, b"x")), vec![]);
    let mut late = join(&mut broker, 5);
    let report = broker.publish("t", frame(2, b"y"));
    assert_eq!(report, vec![Delivery { client_id: 5, accepted: true }]);
    assert_eq!(late.try_recv().unwrap().header.msg_id, 2);
}

#[test]
fn registering_again_replaces_the_handle() {
    let mut broker = Broker::new();
    let mut first = join(&mut broker, 1);
    broker.subscribe(1, "t".to_string());
    let mut second = join(&mut broker, 1);
    let report = broker.publish("t", frame(1, b"x"));
    assert_eq!(report, vec![Delivery { client_id: 1, accepted: true }]);
    assert!(matches!(first.try_recv(), Err(TryRecvError::Disconnected)));
    assert!(second.try_recv().is_ok());
}

#[test]
fn client_tx_hands_out_the_registered_handle() {
    let mut broker = Broker::new();
    let mut a = join(&mut broker, 1);
    let sent = frame(3, b"direct");
    assert!(broker.client_tx(1).unwrap().send(sent.clone()).is_ok());
    assert_eq!(a.try_recv().unwrap(), sent);
    assert!(broker.client_tx(2).is_none());
}

#[test]
fn topics_outlive_their_subscribers() {
    let mut broker = Broker::new();
    let _a = join(&mut broker, 1);
    broker.subscribe(1, "t".to_string());
    broker.subscribe(1, "u".to_string());
    broker.unsubscribe(1, "t");
    assert!(broker.has_topic("t"));
    broker.unregister_client(1);
    assert!(broker.has_topic("t"));
    assert!(broker.has_topic("u"));
    assert!(!broker.has_topic("v"));
}

#[test]
fn topic_names_are_compared_exactly() {
    let mut broker = Broker::new();
    let mut a = join(&mut broker, 1);
    broker.subscribe(1, "caf\u{e9}".to_string());
    assert!(broker.is_subscribed(1, "caf\u{e9}"));
    assert!(!broker.is_subscribed(1, "cafe"));
    assert!(!broker.is_subscribed(1, "cafe\u{301}"));
    assert_eq!(broker.publish("cafe", frame(1, b"x")), vec![]);
    assert_eq!(broker.publish("caf\u{e9}", frame(1, b"x")).len(), 1);
    assert!(a.try_recv().is_ok());
}

#[test]
fn delivery_records_the_outcome() {
    assert_eq!(Delivery::record(4, Ok(())), Delivery { client_id: 4, accepted: true });
    assert_eq!(
        Delivery::record(4, Err(frame(1, b"x"))),
        Delivery { client_id: 4, accepted: false }
    );
}

#[test]
fn many_subscribers_each_receive_once() {
    let mut broker = Broker::new();
    let mut receivers = Vec::new();
    for id in 0..50u64 {
        receivers.push(join(&mut broker, id));
        if id % 2 == 0 {
            broker.subscribe(id, "even".to_string());
        }
    }
    let report = sorted(broker.publish("even", frame(1, b"x")));
    let ids: Vec<u64> = report.iter().map(|d| d.client_id).collect();
    assert_eq!(ids, (0..50u64).filter(|id| id % 2 == 0).collect::<Vec<u64>>());
    for (id, rx) in receivers.iter_mut().enumerate() {
        if id % 2 == 0 {
            assert!(rx.try_recv().is_ok());
        }
        assert!(is_empty(rx));
    }
}
