use craps::bus::{BroadcastBus, RecvOutcome, Subscriber};

fn expect_message(bus: &BroadcastBus, sub: &mut Subscriber) -> String {
    match bus.recv(sub) {
        RecvOutcome::Message(m) => m,
        other => panic!("expected a message, got {:?}", other),
    }
}

#[test]
fn delivers_in_publish_order() {
    let mut bus = BroadcastBus::new(100);
    let mut sub = bus.subscribe();
    bus.publish("first".to_string());
    bus.publish("second".to_string());
    bus.publish("third".to_string());

    assert_eq!(expect_message(&bus, &mut sub), "first");
    assert_eq!(expect_message(&bus, &mut sub), "second");
    assert_eq!(expect_message(&bus, &mut sub), "third");
    assert!(matches!(bus.recv(&mut sub), RecvOutcome::Pending));
}

#[test]
fn new_subscribers_see_no_history() {
    let mut bus = BroadcastBus::new(100);
    bus.publish("before".to_string());
    let mut sub = bus.subscribe();
    assert!(matches!(bus.recv(&mut sub), RecvOutcome::Pending));
    bus.publish("after".to_string());
    assert_eq!(expect_message(&bus, &mut sub), "after");
}

#[test]
fn lagging_subscriber_loses_oldest_but_gets_most_recent() {
    let mut bus = BroadcastBus::new(100);
    let mut lazy = bus.subscribe();

    // A subscriber that never reads does not block the producer: all 105
    // publishes complete.
    for i in 0..105 {
        bus.publish(format!("event-{}", i));
    }

    // Its five oldest unread messages were discarded...
    match bus.recv(&mut lazy) {
        RecvOutcome::Lagged(n) => assert_eq!(n, 5),
        other => panic!("expected lag, got {:?}", other),
    }

    // ...and once it resumes reading it receives the 100 most recent ones,
    // in order.
    for i in 5..105 {
        assert_eq!(expect_message(&bus, &mut lazy), format!("event-{}", i));
    }
    assert!(matches!(bus.recv(&mut lazy), RecvOutcome::Pending));
}

#[test]
fn slow_subscriber_does_not_affect_others() {
    let mut bus = BroadcastBus::new(100);
    let mut slow = bus.subscribe();
    let mut fast = bus.subscribe();

    for i in 0..100 {
        bus.publish(format!("event-{}", i));
        assert_eq!(expect_message(&bus, &mut fast), format!("event-{}", i));
    }
    for i in 100..150 {
        bus.publish(format!("event-{}", i));
    }

    // The fast subscriber keeps receiving everything while the slow one sits
    // 150 behind.
    for i in 100..150 {
        assert_eq!(expect_message(&bus, &mut fast), format!("event-{}", i));
    }
    match bus.recv(&mut slow) {
        RecvOutcome::Lagged(n) => assert_eq!(n, 50),
        other => panic!("expected lag, got {:?}", other),
    }
    assert_eq!(expect_message(&bus, &mut slow), "event-50");
}
