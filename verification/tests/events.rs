use ternary_event::{epoch_timestamp, Event, EventEmitter, Priority};

#[test]
fn priority_ordering() {
    assert!(Priority::Low < Priority::Normal);
    assert!(Priority::Normal < Priority::Critical);
}

#[test]
fn priority_equality() {
    assert_eq!(Priority::Normal, Priority::Normal);
    assert_ne!(Priority::Low, Priority::Critical);
}

#[test]
fn event_new_has_fields() {
    let e = Event::with_timestamp("test", "payload", Priority::Normal, "src", 100);
    assert_eq!(e.event_type, "test");
    assert_eq!(e.payload, "payload");
    assert_eq!(e.priority, Priority::Normal);
    assert_eq!(e.source, "src");
    assert_eq!(e.timestamp_ms, 100);
}

#[test]
fn event_new_auto_timestamp() {
    let e = Event::new("t", "p", Priority::Low, "s");
    assert!(e.timestamp_ms > 0);
}

#[test]
fn event_equality() {
    let a = Event::with_timestamp("x", "y", Priority::Critical, "z", 42);
    let b = Event::with_timestamp("x", "y", Priority::Critical, "z", 42);
    assert_eq!(a, b);
}

#[test]
fn priority_order_holds_for_all_pairs() {
    let all = [Priority::Low, Priority::Normal, Priority::Critical];
    for (i, a) in all.iter().enumerate() {
        for (j, b) in all.iter().enumerate() {
            assert_eq!(a < b, i < j);
            assert_eq!(a == b, i == j);
            assert_eq!(a.partial_cmp(b), Some(i.cmp(&j)));
            assert_eq!(a.cmp(b), i.cmp(&j));
        }
    }
    assert!(Priority::Low < Priority::Critical);
    assert!(Priority::Critical >= Priority::Normal);
}

#[test]
fn priority_rank_values() {
    assert_eq!(Priority::Low.rank(), 0);
    assert_eq!(Priority::Normal.rank(), 1);
    assert_eq!(Priority::Critical.rank(), 2);
}

#[test]
fn event_new_keeps_given_fields() {
    let e = Event::new("room.joined", "alice", Priority::Critical, "room-7");
    assert_eq!(e.event_type, "room.joined");
    assert_eq!(e.payload, "alice");
    assert_eq!(e.priority, Priority::Critical);
    assert_eq!(e.source, "room-7");
}

#[test]
fn event_clone_is_equal() {
    let a = Event::with_timestamp("task.failed", "oom", Priority::Critical, "node-3", 7);
    let b = a.clone();
    assert_eq!(a, b);
    assert_eq!(b.payload, "oom");
}

#[test]
fn event_inequality_on_timestamp() {
    let a = Event::with_timestamp("x", "y", Priority::Critical, "z", 42);
    let b = Event::with_timestamp("x", "y", Priority::Critical, "z", 43);
    assert_ne!(a, b);
}

#[test]
fn emitter_uses_name_as_source() {
    let e = "agent-9".emit("task.started", "job-1", Priority::Normal);
    assert_eq!(e.source, "agent-9");
    assert_eq!(e.event_type, "task.started");
    assert_eq!(e.payload, "job-1");
    assert_eq!(e.priority, Priority::Normal);
    assert!(e.timestamp_ms > 0);
}

#[test]
fn epoch_timestamp_values() {
    assert_eq!(epoch_timestamp(None), 0);
    assert_eq!(epoch_timestamp(Some(1_725_029_869_000)), 1_725_029_869_000);
    assert_eq!(epoch_timestamp(Some(u64::MAX as u128)), u64::MAX);
    assert_eq!(epoch_timestamp(Some((1u128 << 64) + 5)), 5);
}

#[test]
fn event_new_timestamps_follow_clock() {
    let a = Event::new("t", "p", Priority::Low, "s");
    let b = Event::new("t", "p", Priority::Low, "s");
    assert!(a.timestamp_ms <= b.timestamp_ms);
    assert_eq!(a.event_type, b.event_type);
    assert_eq!(a.source, b.source);
    assert!(epoch_timestamp(None) <= epoch_timestamp(Some(3)));
    assert!(epoch_timestamp(Some(3)) <= epoch_timestamp(Some(4)));
}
