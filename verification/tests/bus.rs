use std::cell::Cell;
use std::rc::Rc;
use std::sync::atomic::{AtomicUsize, Ordering};
use ternary_event::{Callback, Event, EventBus, EventFilter, Priority};

static CALL_COUNT: AtomicUsize = AtomicUsize::new(0);

fn counting_callback(_event: &Event) {
    CALL_COUNT.fetch_add(1, Ordering::SeqCst);
}

fn noop_callback(_event: &Event) {}

fn reset_count() {
    CALL_COUNT.store(0, Ordering::SeqCst);
}

#[test]
fn bus_subscribe_and_count() {
    let mut bus = EventBus::new();
    let id = bus.subscribe(EventFilter::new(), noop_callback);
    assert_eq!(bus.subscription_count(), 1);
    assert!(bus.unsubscribe(id));
    assert_eq!(bus.subscription_count(), 0);
    assert!(!bus.unsubscribe(id)); // already removed
}

#[test]
fn bus_publish_notifies_matching() {
    reset_count();
    let mut bus = EventBus::new();
    let f = EventFilter::new().event_type("ping");
    bus.subscribe(f, counting_callback);
    bus.subscribe(EventFilter::new(), counting_callback); // matches everything

    let e = Event::with_timestamp("ping", "data", Priority::Normal, "test", 0);
    bus.publish(e);
    assert_eq!(CALL_COUNT.load(Ordering::SeqCst), 2);
}

#[test]
fn bus_publish_skips_non_matching() {
    reset_count();
    let mut bus = EventBus::new();
    let f = EventFilter::new().event_type("click");
    bus.subscribe(f, counting_callback);

    let e = Event::with_timestamp("keypress", "data", Priority::Normal, "test", 0);
    bus.publish(e);
    assert_eq!(CALL_COUNT.load(Ordering::SeqCst), 0);
}

#[test]
fn bus_stores_history() {
    let mut bus = EventBus::new();
    bus.publish(Event::with_timestamp("a", "p", Priority::Low, "s", 1));
    bus.publish(Event::with_timestamp("b", "p", Priority::Normal, "s", 2));
    assert_eq!(bus.history().len(), 2);
}

#[test]
fn bus_replay_to_callback() {
    static REPLAY_COUNT: AtomicUsize = AtomicUsize::new(0);
    REPLAY_COUNT.store(0, Ordering::SeqCst);
    fn replay_cb(_e: &Event) {
        REPLAY_COUNT.fetch_add(1, Ordering::SeqCst);
    }
    let mut bus = EventBus::new();
    bus.publish(Event::with_timestamp("x", "p", Priority::Low, "s", 1));
    bus.publish(Event::with_timestamp("y", "p", Priority::Low, "s", 2));
    bus.replay_to(replay_cb);
    assert_eq!(REPLAY_COUNT.load(Ordering::SeqCst), 2);
}

#[test]
fn bus_default() {
    let bus = EventBus::default();
    assert_eq!(bus.subscription_count(), 0);
    assert!(bus.history().is_empty());
}

#[test]
fn bus_ids_are_fresh_and_increasing() {
    let mut bus = EventBus::new();
    let a = bus.subscribe(EventFilter::new(), noop_callback);
    let b = bus.subscribe(EventFilter::new(), noop_callback);
    assert_eq!(a, 0);
    assert_eq!(b, 1);
    assert!(bus.unsubscribe(a));
    let c = bus.subscribe(EventFilter::new(), noop_callback);
    assert_eq!(c, 2);
    assert_eq!(bus.subscription_count(), 2);
}

#[test]
fn bus_unsubscribe_unknown_id() {
    let mut bus = EventBus::new();
    assert!(!bus.unsubscribe(17));
    bus.subscribe(EventFilter::new(), noop_callback);
    assert!(!bus.unsubscribe(17));
    assert_eq!(bus.subscription_count(), 1);
}

#[test]
fn bus_subscribe_then_unsubscribe_restores() {
    let mut bus = EventBus::new();
    let keep = bus.subscribe(EventFilter::new().event_type("a"), noop_callback);
    let temp = bus.subscribe(EventFilter::new().event_type("b"), noop_callback);
    assert!(bus.unsubscribe(temp));
    assert_eq!(bus.subscription_count(), 1);
    let e = Event::with_timestamp("a", "p", Priority::Low, "s", 0);
    assert_eq!(bus.matching_subscribers(&e), vec![keep]);
    let e = Event::with_timestamp("b", "p", Priority::Low, "s", 0);
    assert!(bus.matching_subscribers(&e).is_empty());
}

#[test]
fn bus_matching_subscribers_exact_set() {
    let mut bus = EventBus::new();
    let all = bus.subscribe(EventFilter::new(), noop_callback);
    let critical = bus.subscribe(EventFilter::new().min_priority(Priority::Critical), noop_callback);
    let from_mon = bus.subscribe(EventFilter::new().source("mon"), noop_callback);
    let e = Event::with_timestamp("alert", "p", Priority::Critical, "ui", 0);
    let mut ids = bus.matching_subscribers(&e);
    ids.sort();
    assert_eq!(ids, vec![all, critical]);
    let e = Event::with_timestamp("alert", "p", Priority::Low, "mon", 0);
    let mut ids = bus.matching_subscribers(&e);
    ids.sort();
    assert_eq!(ids, vec![all, from_mon]);
}

#[test]
fn bus_publish_records_newest_last() {
    let mut bus = EventBus::with_history_capacity(2);
    bus.publish(Event::with_timestamp("a", "p", Priority::Low, "s", 1));
    bus.publish(Event::with_timestamp("b", "p", Priority::Low, "s", 2));
    bus.publish(Event::with_timestamp("c", "p", Priority::Low, "s", 3));
    assert_eq!(bus.history().len(), 2);
    assert_eq!(bus.history().last().unwrap().event_type, "c");
    assert_eq!(bus.history().replay().next().unwrap().event_type, "b");
}

#[test]
fn bus_closure_callbacks_see_each_matching_event() {
    let seen = Rc::new(Cell::new(0usize));
    let counter = seen.clone();
    let mut bus = EventBus::new();
    bus.subscribe(EventFilter::new().min_priority(Priority::Normal), move |_e: &Event| {
        counter.set(counter.get() + 1)
    });
    bus.publish(Event::with_timestamp("t", "p", Priority::Low, "s", 0));
    bus.publish(Event::with_timestamp("t", "p", Priority::Normal, "s", 0));
    bus.publish(Event::with_timestamp("t", "p", Priority::Critical, "s", 0));
    assert_eq!(seen.get(), 2);
    assert_eq!(bus.history().len(), 3);
}

#[test]
fn bus_replay_to_sees_events_oldest_first() {
    let order = Rc::new(Cell::new(0u64));
    let mut bus = EventBus::new();
    for i in 1..=3u64 {
        bus.publish(Event::with_timestamp("t", "p", Priority::Low, "s", i));
    }
    let o = order.clone();
    bus.replay_to(move |e: &Event| {
        assert_eq!(e.timestamp_ms, o.get() + 1);
        o.set(e.timestamp_ms);
    });
    assert_eq!(order.get(), 3);
}

#[test]
fn callback_wraps_a_function() {
    let hits = Rc::new(Cell::new(0u32));
    let h = hits.clone();
    let cb = Callback::new(move |_e: &Event| h.set(h.get() + 1));
    let e = Event::with_timestamp("t", "p", Priority::Low, "s", 0);
    cb.call(&e);
    cb.call(&e);
    assert_eq!(hits.get(), 2);
}

#[test]
fn bus_count_tracks_calls() {
    let mut bus = EventBus::new();
    let a = bus.subscribe(EventFilter::new(), noop_callback);
    let b = bus.subscribe(EventFilter::new(), noop_callback);
    let c = bus.subscribe(EventFilter::new(), noop_callback);
    assert_eq!((a, b, c), (0, 1, 2));
    assert!(bus.unsubscribe(b));
    assert!(!bus.unsubscribe(b));
    assert!(!bus.unsubscribe(99));
    bus.publish(Event::with_timestamp("t", "p", Priority::Low, "s", 0));
    assert_eq!(bus.subscription_count(), 3 - 1);
    assert_eq!(bus.subscribe(EventFilter::new(), noop_callback), 3);
}

#[test]
fn bus_subscribe_keeps_other_callbacks() {
    let first = Rc::new(Cell::new(0u32));
    let second = Rc::new(Cell::new(0u32));
    let (f1, f2) = (first.clone(), second.clone());
    let mut bus = EventBus::new();
    bus.subscribe(EventFilter::new().event_type("one"), move |_e: &Event| f1.set(f1.get() + 1));
    let id = bus.subscribe(EventFilter::new().event_type("two"), move |_e: &Event| f2.set(f2.get() + 1));
    bus.publish(Event::with_timestamp("one", "p", Priority::Low, "s", 0));
    assert_eq!((first.get(), second.get()), (1, 0));
    bus.publish(Event::with_timestamp("two", "p", Priority::Low, "s", 0));
    assert_eq!((first.get(), second.get()), (1, 1));
    assert!(bus.unsubscribe(id));
    bus.publish(Event::with_timestamp("two", "p", Priority::Low, "s", 0));
    bus.publish(Event::with_timestamp("one", "p", Priority::Low, "s", 0));
    assert_eq!((first.get(), second.get()), (2, 1));
}

#[test]
fn bus_history_holds_newest_published_across_calls() {
    let mut bus = EventBus::with_history_capacity(3);
    for i in 0..6u64 {
        let id = bus.subscribe(EventFilter::new(), noop_callback);
        bus.publish(Event::with_timestamp("t", "p", Priority::Low, "s", i));
        if i % 2 == 0 {
            assert!(bus.unsubscribe(id));
        }
        bus.replay_to(noop_callback);
    }
    let stamps: Vec<u64> = bus.history().replay().map(|e| e.timestamp_ms).collect();
    assert_eq!(stamps, vec![3, 4, 5]);
    assert_eq!(bus.subscription_count(), 3);
}
