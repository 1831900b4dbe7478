//! Events: a typed payload stamped with a priority, a time and a source.

use vstd::prelude::*;
use crate::clock::now_millis;
use crate::priority::Priority;

verus! {

/// A typed event with a payload and ternary priority.
#[derive(Debug, PartialEq, Eq)]
pub struct Event {
    pub event_type: String,
    pub payload: String,
    pub priority: Priority,
    pub timestamp_ms: u64,
    pub source: String,
}

/// The mathematical value of an [`Event`]: its strings as character sequences.
pub struct EventView {
    pub event_type: Seq<char>,
    pub payload: Seq<char>,
    pub priority: Priority,
    pub timestamp_ms: u64,
    pub source: Seq<char>,
}

impl View for Event {
    type V = EventView;

    open spec fn view(&self) -> EventView {
        EventView {
            event_type: self.event_type@,
            payload: self.payload@,
            priority: self.priority,
            timestamp_ms: self.timestamp_ms,
            source: self.source@,
        }
    }
}

impl Event {
    /// Create a new event stamped with the current system time (milliseconds
    /// since the Unix epoch; `0` if the clock reads a time before the epoch).
    pub fn new(event_type: &str, payload: &str, priority: Priority, source: &str) -> (e: Event)
        ensures
            e@.event_type == event_type@,
            e@.payload == payload@,
            e@.priority == priority,
            e@.source == source@,
    {
        let timestamp_ms = now_millis();
        Event::with_timestamp(event_type, payload, priority, source, timestamp_ms)
    }

    /// Create an event with an explicit timestamp (useful in tests).
    pub fn with_timestamp(
        event_type: &str,
        payload: &str,
        priority: Priority,
        source: &str,
        ts: u64,
    ) -> (e: Event)
        ensures
            e@ == (EventView {
                event_type: event_type@,
                payload: payload@,
                priority,
                timestamp_ms: ts,
                source: source@,
            }),
    {
        Event {
            event_type: event_type.to_owned(),
            payload: payload.to_owned(),
            priority,
            timestamp_ms: ts,
            source: source.to_owned(),
        }
    }
}

impl Clone for Event {
    fn clone(&self) -> (e: Event)
        ensures
            e == *self,
    {
        Event {
            event_type: self.event_type.clone(),
            payload: self.payload.clone(),
            priority: self.priority,
            timestamp_ms: self.timestamp_ms,
            source: self.source.clone(),
        }
    }
}

/// Convenience trait for types that can emit events.
pub trait EventEmitter {
    fn emit(&self, event_type: &str, payload: &str, priority: Priority) -> Event;
}

/// A name emits events whose source is that name.
impl EventEmitter for str {
    fn emit(&self, event_type: &str, payload: &str, priority: Priority) -> (e: Event)
        ensures
            e@.event_type == event_type@,
            e@.payload == payload@,
            e@.priority == priority,
            e@.source == self@,
    {
        Event::new(event_type, payload, priority, self)
    }
}

} // verus!
