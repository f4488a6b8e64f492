use pump_feed::bus::EventBus;
use pump_feed::bus::PollOutcome;
use pump_feed::event::CreateEvent;

fn ev(tag: &str, slot: u64) -> CreateEvent {
    CreateEvent {
        signature: format!("sig{}", tag),
        mint_address: format!("mint{}", tag),
        creator_address: format!("creator{}", tag),
        slot,
    }
}

fn expect_event(outcome: PollOutcome) -> CreateEvent {
    match outcome {
        PollOutcome::Event(e) => e,
        PollOutcome::Lagged(_) => panic!("unexpected lag"),
        PollOutcome::Empty => panic!("unexpectedly idle"),
    }
}

#[test]
fn keeping_up_delivers_everything_in_order() {
    let mut bus = EventBus::new(16);
    let mut c = bus.subscribe();
    for i in 0..5u64 {
        bus.publish(ev(&i.to_string(), i));
    }
    for i in 0..5u64 {
        let e = expect_event(bus.poll(&mut c));
        assert_eq!(e.slot, i);
        assert_eq!(e.signature, format!("sig{}", i));
    }
    assert!(matches!(bus.poll(&mut c), PollOutcome::Empty));
}

#[test]
fn publish_never_blocks_and_overwrites_oldest() {
    let mut bus = EventBus::new(3);
    let mut c = bus.subscribe();
    for i in 0..8u64 {
        bus.publish(ev(&i.to_string(), i));
    }
    // The subscriber missed 8 - 3 = 5 events; it is told so exactly once.
    match bus.poll(&mut c) {
        PollOutcome::Lagged(n) => assert_eq!(n, 5),
        _ => panic!("expected a lag signal"),
    }
    // It then resumes at the oldest retained event and loses nothing more.
    for i in 5..8u64 {
        let e = expect_event(bus.poll(&mut c));
        assert_eq!(e.slot, i);
    }
    assert!(matches!(bus.poll(&mut c), PollOutcome::Empty));
}

#[test]
fn lag_is_signalled_once_per_gap() {
    let mut bus = EventBus::new(2);
    let mut c = bus.subscribe();
    for i in 0..5u64 {
        bus.publish(ev(&i.to_string(), i));
    }
    assert!(matches!(bus.poll(&mut c), PollOutcome::Lagged(3)));
    assert_eq!(expect_event(bus.poll(&mut c)).slot, 3);
    assert_eq!(expect_event(bus.poll(&mut c)).slot, 4);
    assert!(matches!(bus.poll(&mut c), PollOutcome::Empty));
    // A second gap gives a second, separate signal.
    for i in 5..10u64 {
        bus.publish(ev(&i.to_string(), i));
    }
    assert!(matches!(bus.poll(&mut c), PollOutcome::Lagged(3)));
    assert_eq!(expect_event(bus.poll(&mut c)).slot, 8);
}

#[test]
fn subscribers_start_at_now() {
    let mut bus = EventBus::new(4);
    bus.publish(ev("early", 1));
    let mut c = bus.subscribe();
    // History published before subscribing is not replayed.
    assert!(matches!(bus.poll(&mut c), PollOutcome::Empty));
    bus.publish(ev("late", 2));
    assert_eq!(expect_event(bus.poll(&mut c)).slot, 2);
}

#[test]
fn three_subscribers_and_one_departure() {
    let mut bus = EventBus::new(8);
    let mut c1 = bus.subscribe();
    let mut c2 = bus.subscribe();
    let mut c3 = bus.subscribe();
    bus.publish(ev("e", 10));
    assert_eq!(expect_event(bus.poll(&mut c1)).slot, 10);
    assert_eq!(expect_event(bus.poll(&mut c2)).slot, 10);
    assert_eq!(expect_event(bus.poll(&mut c3)).slot, 10);
    // One subscriber goes away; the others are unaffected.
    drop(c3);
    bus.publish(ev("f", 11));
    assert_eq!(expect_event(bus.poll(&mut c1)).slot, 11);
    assert_eq!(expect_event(bus.poll(&mut c2)).slot, 11);
    assert!(matches!(bus.poll(&mut c1), PollOutcome::Empty));
    assert!(matches!(bus.poll(&mut c2), PollOutcome::Empty));
}

#[test]
fn published_counts_the_whole_history() {
    let mut bus = EventBus::new(2);
    assert_eq!(bus.published(), 0);
    for i in 0..5u64 {
        bus.publish(ev(&i.to_string(), i));
    }
    assert_eq!(bus.published(), 5);
}

#[test]
fn duplicate_copies_every_field() {
    let e = ev("x", 99);
    let d = e.duplicate();
    assert_eq!(d.signature, e.signature);
    assert_eq!(d.mint_address, e.mint_address);
    assert_eq!(d.creator_address, e.creator_address);
    assert_eq!(d.slot, e.slot);
}
