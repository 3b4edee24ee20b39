use txapi::hub::{Broadcast, RecvStep};
use txapi::producer::{buffer_size_from, producer_step, ProducerState};
use txapi::registry::{Channel, WsClient};
use txapi::session::{
    handle_frame, handle_incoming, outbound_msg, session_step, HubEvent, SessionEvent,
    SessionState,
};
use txapi::wire::{ChannelMsg, SubscribeParams, WsMessage};

fn heartbeat(status: &str) -> txapi::domain::Heartbeat {
    txapi::domain::Heartbeat { status: status.to_string() }
}

fn sample_tx(amount: u64) -> txapi::domain::Transaction {
    txapi::domain::Transaction {
        id: "0123456789abcdef0123456789abcdef".to_string(),
        timestamp: "2024-01-15T10:30:00+00:00".to_string(),
        cc_number: "4539148803436467".to_string(),
        category: txapi::domain::TransactionCategory::Grocery,
        amount_usd_cents: amount,
        location: txapi::domain::Location {
            city: "San Francisco".to_string(),
            country_iso: "US".to_string(),
            latitude_micro: 37_774_929,
            longitude_micro: -122_419_418,
        },
        is_online: false,
    }
}

#[test]
fn subscribe_then_publish_is_observed() {
    let mut hub: Broadcast<u64> = Broadcast::new(4);
    hub.publish(1); // before attachment: never seen
    let h = hub.subscribe();
    hub.publish(2);
    match hub.recv(h) {
        RecvStep::Msg { index } => assert_eq!(*hub.read(index), 2),
        other => panic!("expected a delivery, got {:?}", other),
    }
    assert_eq!(hub.recv(h), RecvStep::Empty);
}

#[test]
fn no_replay_before_subscription() {
    let mut hub: Broadcast<u64> = Broadcast::new(4);
    hub.publish(10);
    hub.publish(11);
    let h = hub.subscribe();
    assert_eq!(hub.recv(h), RecvStep::Empty);
}

#[test]
fn publish_without_subscribers_is_discarded() {
    let mut hub: Broadcast<u64> = Broadcast::new(2);
    hub.publish(1);
    hub.publish(2);
    hub.publish(3);
    let h = hub.subscribe();
    assert_eq!(hub.recv(h), RecvStep::Empty);
}

#[test]
fn slow_consumer_observes_gap_and_last_capacity_messages() {
    let capacity: usize = 5;
    let k: usize = 3;
    let mut hub: Broadcast<usize> = Broadcast::new(capacity);
    let slow = hub.subscribe();
    let fast = hub.subscribe();
    for i in 0..(capacity + k) {
        hub.publish(i);
        // the fast subscriber keeps reading and misses nothing
        match hub.recv(fast) {
            RecvStep::Msg { index } => assert_eq!(*hub.read(index), i),
            other => panic!("fast subscriber saw {:?}", other),
        }
    }
    // the slow subscriber sees one gap of exactly k skipped messages...
    assert_eq!(hub.recv(slow), RecvStep::Lagged { skipped: k });
    // ...and exactly the last `capacity` messages, in order
    for i in k..(capacity + k) {
        match hub.recv(slow) {
            RecvStep::Msg { index } => assert_eq!(*hub.read(index), i),
            other => panic!("slow subscriber saw {:?}", other),
        }
    }
    assert_eq!(hub.recv(slow), RecvStep::Empty);
}

#[test]
fn subscribe_is_idempotent() {
    let mut a = WsClient::default();
    a.subscribe(Channel::Transactions);
    let mut b = WsClient::default();
    b.subscribe(Channel::Transactions);
    b.subscribe(Channel::Transactions);
    assert_eq!(
        a.is_subscribed(&Channel::Transactions),
        b.is_subscribed(&Channel::Transactions)
    );
    assert_eq!(
        a.is_subscribed(&Channel::Heartbeat),
        b.is_subscribed(&Channel::Heartbeat)
    );
}

#[test]
fn unsubscribe_when_not_subscribed_is_a_noop() {
    let mut c = WsClient::default();
    c.unsubscribe(Channel::Transactions);
    assert!(!c.is_subscribed(&Channel::Transactions));
    assert!(!c.is_subscribed(&Channel::Heartbeat));
}

#[test]
fn bogus_channel_changes_nothing() {
    let mut c = WsClient::default();
    c.subscribe(Channel::Heartbeat);
    handle_frame(
        "{\"method\":\"subscribe\",\"params\":{\"channel\":\"bogus\"}}",
        &mut c,
    );
    assert!(c.is_subscribed(&Channel::Heartbeat));
    assert!(!c.is_subscribed(&Channel::Transactions));
}

#[test]
fn malformed_frame_changes_nothing() {
    let mut c = WsClient::default();
    handle_frame("not json at all", &mut c);
    handle_frame("{\"method\":\"subscribe\"}", &mut c);
    handle_frame("", &mut c);
    assert!(!c.is_subscribed(&Channel::Transactions));
    assert!(!c.is_subscribed(&Channel::Heartbeat));
}

#[test]
fn handle_incoming_applies_known_channels() {
    let mut c = WsClient::default();
    let msg = WsMessage::Subscribe {
        params: SubscribeParams { channel: "transactions".to_string() },
    };
    handle_incoming(&msg, &mut c);
    assert!(c.is_subscribed(&Channel::Transactions));
    let msg = WsMessage::Unsubscribe {
        params: txapi::wire::UnsubscribeParams { channel: "transactions".to_string() },
    };
    handle_incoming(&msg, &mut c);
    assert!(!c.is_subscribed(&Channel::Transactions));
}

#[test]
fn heartbeat_is_forwarded_to_every_session() {
    let unsubscribed = WsClient::default();
    let r = outbound_msg(&unsubscribed, HubEvent::Heartbeat(heartbeat("ok")));
    match r {
        Some(ChannelMsg::Heartbeat { data }) => assert_eq!(data.status, "ok"),
        other => panic!("heartbeat suppressed: {:?}", other),
    }
}

#[test]
fn transactions_are_filtered_per_session() {
    let mut subscribed = WsClient::default();
    subscribed.subscribe(Channel::Transactions);
    let unsubscribed = WsClient::default();

    match outbound_msg(&subscribed, HubEvent::Transaction(sample_tx(100))) {
        Some(ChannelMsg::Transactions { data }) => {
            assert_eq!(data.len(), 1);
            assert_eq!(data[0].amount_usd_cents, 100);
        },
        other => panic!("subscribed session got {:?}", other),
    }
    // a session that never subscribed sees a disjoint (empty) projection
    assert!(outbound_msg(&unsubscribed, HubEvent::Transaction(sample_tx(100))).is_none());
}

#[test]
fn producer_stops_publishing_once_cancelled() {
    let mut state = ProducerState::Running;
    let mut published: Vec<u64> = Vec::new();
    let feed: Vec<(bool, Option<u64>)> = vec![
        (false, Some(1)),
        (false, Some(2)),
        (true, Some(3)),
        (true, Some(4)),
        (true, Some(5)),
    ];
    for (cancelled, item) in feed {
        let (next, out) = producer_step(state, cancelled, item);
        state = next;
        if let Some(v) = out {
            published.push(v);
        }
    }
    assert_eq!(published, vec![1, 2]);
    assert_eq!(state, ProducerState::Stopped);

    // already-open sessions stay functional after the signal
    let mut c = WsClient::default();
    handle_frame(
        "{\"method\":\"subscribe\",\"params\":{\"channel\":\"transactions\"}}",
        &mut c,
    );
    assert!(outbound_msg(&c, HubEvent::Transaction(sample_tx(7))).is_some());
}

#[test]
fn buffer_size_defaults_and_overrides() {
    assert_eq!(buffer_size_from(None), 100);
    assert_eq!(buffer_size_from(Some("250")), 250);
    assert_eq!(buffer_size_from(Some("abc")), 100);
    assert_eq!(buffer_size_from(Some("")), 100);
    assert_eq!(buffer_size_from(Some("0")), 0);
}

#[test]
fn session_lifecycle_never_reopens() {
    let s = SessionState::Open;
    let s = session_step(s, SessionEvent::HalfEnded);
    assert_eq!(s, SessionState::HalfClosing);
    let s = session_step(s, SessionEvent::SiblingCancelled);
    assert_eq!(s, SessionState::Closed);
    let s = session_step(s, SessionEvent::HalfEnded);
    assert_eq!(s, SessionState::Closed);
    let s = session_step(s, SessionEvent::SiblingCancelled);
    assert_eq!(s, SessionState::Closed);
}
