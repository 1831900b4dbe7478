use ternary_event::{Event, EventFilter, EventHistory, Priority};

#[test]
fn history_append_and_len() {
    let mut h = EventHistory::new();
    assert!(h.is_empty());
    h.append(Event::with_timestamp("a", "p", Priority::Low, "s", 1));
    h.append(Event::with_timestamp("b", "p", Priority::Low, "s", 2));
    assert_eq!(h.len(), 2);
    assert!(!h.is_empty());
}

#[test]
fn history_last() {
    let mut h = EventHistory::new();
    assert!(h.last().is_none());
    h.append(Event::with_timestamp("first", "p", Priority::Low, "s", 1));
    h.append(Event::with_timestamp("second", "p", Priority::Low, "s", 2));
    assert_eq!(h.last().unwrap().event_type, "second");
}

#[test]
fn history_capacity_evicts_oldest() {
    let mut h = EventHistory::with_capacity(2);
    h.append(Event::with_timestamp("a", "p", Priority::Low, "s", 1));
    h.append(Event::with_timestamp("b", "p", Priority::Low, "s", 2));
    h.append(Event::with_timestamp("c", "p", Priority::Low, "s", 3));
    assert_eq!(h.len(), 2);
    assert_eq!(h.replay().next().unwrap().event_type, "b");
}

#[test]
fn history_replay_filtered() {
    let mut h = EventHistory::new();
    h.append(Event::with_timestamp("click", "p", Priority::Low, "ui", 1));
    h.append(Event::with_timestamp("alert", "p", Priority::Critical, "mon", 2));
    h.append(Event::with_timestamp("click", "q", Priority::Normal, "ui", 3));
    let f = EventFilter::new().event_type("click");
    let results = h.replay_filtered(&f);
    assert_eq!(results.len(), 2);
}

#[test]
fn history_replay_is_oldest_first() {
    let mut h = EventHistory::new();
    for (i, t) in ["a", "b", "c", "d"].iter().enumerate() {
        h.append(Event::with_timestamp(t, "p", Priority::Low, "s", i as u64));
    }
    let types: Vec<&str> = h.replay().map(|e| e.event_type.as_str()).collect();
    assert_eq!(types, vec!["a", "b", "c", "d"]);
}

#[test]
fn history_keeps_newest_in_order() {
    let mut h = EventHistory::with_capacity(3);
    for i in 0..10u64 {
        h.append(Event::with_timestamp("tick", "p", Priority::Low, "clock", i));
        assert!(h.len() <= 3);
        assert_eq!(h.last().unwrap().timestamp_ms, i);
    }
    let stamps: Vec<u64> = h.replay().map(|e| e.timestamp_ms).collect();
    assert_eq!(stamps, vec![7, 8, 9]);
}

#[test]
fn history_capacity_one_keeps_only_last() {
    let mut h = EventHistory::with_capacity(1);
    h.append(Event::with_timestamp("a", "p", Priority::Low, "s", 1));
    h.append(Event::with_timestamp("b", "p", Priority::Low, "s", 2));
    assert_eq!(h.len(), 1);
    assert_eq!(h.last().unwrap().event_type, "b");
    assert_eq!(h.replay().next().unwrap().event_type, "b");
}

#[test]
fn history_replay_filtered_keeps_order_and_contents() {
    let mut h = EventHistory::new();
    h.append(Event::with_timestamp("click", "1", Priority::Low, "ui", 1));
    h.append(Event::with_timestamp("alert", "2", Priority::Critical, "mon", 2));
    h.append(Event::with_timestamp("click", "3", Priority::Critical, "ui", 3));
    h.append(Event::with_timestamp("alert", "4", Priority::Normal, "mon", 4));
    let f = EventFilter::new().min_priority(Priority::Normal);
    let payloads: Vec<&str> = h.replay_filtered(&f).iter().map(|e| e.payload.as_str()).collect();
    assert_eq!(payloads, vec!["2", "3", "4"]);
    let everything = h.replay_filtered(&EventFilter::new());
    assert_eq!(everything.len(), 4);
    let none = h.replay_filtered(&EventFilter::new().source("nobody"));
    assert!(none.is_empty());
}

#[test]
fn history_default_and_clone() {
    let mut h = EventHistory::default();
    assert!(h.is_empty());
    h.append(Event::with_timestamp("a", "p", Priority::Low, "s", 1));
    let c = h.clone();
    assert_eq!(c.len(), 1);
    assert_eq!(c.last().unwrap().event_type, "a");
}

#[test]
fn history_empty_replay() {
    let h = EventHistory::with_capacity(4);
    assert!(h.replay().next().is_none());
    assert!(h.replay_filtered(&EventFilter::new()).is_empty());
    assert_eq!(h.len(), 0);
}
