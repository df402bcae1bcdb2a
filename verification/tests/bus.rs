use tokio::sync::broadcast::error::TryRecvError;
use tokio::sync::broadcast::Receiver;
use tracing_web_console::event::{LogEvent, Timestamp};
use tracing_web_console::fields::StringMap;
use tracing_web_console::storage::{LogStorage, BROADCAST_CAPACITY};

fn event(message: &str) -> LogEvent {
    LogEvent {
        timestamp: Timestamp { secs: 0, nanos: 0 },
        level: "INFO".to_string(),
        target: "t".to_string(),
        message: message.to_string(),
        fields: StringMap::new(),
        span: None,
        file: None,
        line: None,
    }
}

fn drain(rx: &mut Receiver<LogEvent>) -> Vec<String> {
    let mut seen = Vec::new();
    loop {
        match rx.try_recv() {
            Ok(e) => seen.push(e.message),
            Err(TryRecvError::Lagged(_)) => {}
            Err(_) => return seen,
        }
    }
}

#[test]
fn push_without_subscribers_is_silent() {
    let mut storage = LogStorage::new();
    storage.push(event("nobody listens"));
    assert_eq!(storage.len(), 1);
}

#[test]
fn subscribers_see_the_same_events_in_push_order() {
    let mut storage = LogStorage::new();
    let mut first = storage.subscribe();
    let mut second = storage.subscribe();
    let expected: Vec<String> = (1..=10).map(|i| format!("e{}", i)).collect();
    for message in &expected {
        storage.push(event(message));
    }
    assert_eq!(drain(&mut first), expected);
    assert_eq!(drain(&mut second), expected);
}

#[test]
fn subscriber_does_not_see_what_was_pushed_before() {
    let mut storage = LogStorage::new();
    storage.push(event("before"));
    let mut rx = storage.subscribe();
    assert!(matches!(rx.try_recv(), Err(TryRecvError::Empty)));
    storage.push(event("after"));
    assert_eq!(rx.try_recv().unwrap().message, "after");
    assert!(matches!(rx.try_recv(), Err(TryRecvError::Empty)));
}

#[test]
fn slow_subscriber_lags_and_recovers() {
    let mut storage = LogStorage::new();
    let mut fast = storage.subscribe();
    let mut slow = storage.subscribe();
    let published = BROADCAST_CAPACITY + 200;
    let mut fast_seen = Vec::new();
    for i in 0..published {
        storage.push(event(&format!("e{}", i)));
        fast_seen.push(fast.try_recv().unwrap().message);
    }
    let expected: Vec<String> = (0..published).map(|i| format!("e{}", i)).collect();
    assert_eq!(fast_seen, expected);

    let missed = match slow.try_recv() {
        Err(TryRecvError::Lagged(n)) => n as usize,
        other => panic!("expected a lag, got {:?}", other.map(|e| e.message)),
    };
    assert!(missed >= 100);
    let rest = drain(&mut slow);
    assert_eq!(missed + rest.len(), published);
    assert_eq!(rest, expected[missed..].to_vec());

    storage.push(event("next"));
    assert_eq!(slow.try_recv().unwrap().message, "next");
}

#[test]
fn ring_of_capacity_zero_still_publishes() {
    let mut storage = LogStorage::with_capacity(0);
    let mut rx = storage.subscribe();
    storage.push(event("live only"));
    assert!(storage.is_empty());
    assert_eq!(rx.try_recv().unwrap().message, "live only");
}

#[test]
fn bus_closes_when_the_storage_is_dropped() {
    let storage = LogStorage::new();
    let mut rx = storage.subscribe();
    drop(storage);
    assert!(matches!(rx.try_recv(), Err(TryRecvError::Closed)));
}

#[test]
fn store_keeps_the_event_and_publishes_nothing() {
    let mut storage = LogStorage::with_capacity(2);
    let mut rx = storage.subscribe();
    storage.store(event("a"));
    storage.store(event("b"));
    storage.store(event("c"));
    assert_eq!(storage.len(), 2);
    assert!(matches!(rx.try_recv(), Err(TryRecvError::Empty)));
}

#[test]
fn sender_is_a_handle_to_the_bus_of_the_ring() {
    let mut storage = LogStorage::new();
    let handle = storage.sender();
    let mut rx = storage.subscribe();
    assert_eq!(handle.send(event("by hand")).ok(), Some(1));
    assert_eq!(rx.try_recv().unwrap().message, "by hand");
    // What is sent by hand is not stored.
    assert!(storage.is_empty());
    // And what is pushed reaches a receiver made from the handle.
    let mut other = handle.subscribe();
    storage.push(event("pushed"));
    assert_eq!(other.try_recv().unwrap().message, "pushed");
    assert_eq!(rx.try_recv().unwrap().message, "pushed");
}

#[test]
fn pushed_event_is_in_the_ring_when_it_arrives_on_the_bus() {
    let mut storage = LogStorage::new();
    let mut rx = storage.subscribe();
    storage.push(event("both"));
    assert_eq!(rx.try_recv().unwrap().message, "both");
    assert_eq!(storage.len(), 1);
}
