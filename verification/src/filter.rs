//! Filters that select events by type, minimum priority and source.

use vstd::prelude::*;
use crate::event::{Event, EventView};
use crate::priority::Priority;

verus! {

/// Pattern-matching filter for event streams.
///
/// Each criterion that is set must hold for an event to match; a criterion
/// that is `None` matches every event.
#[derive(Debug)]
pub struct EventFilter {
    pub event_type: Option<String>,
    pub min_priority: Option<Priority>,
    pub source: Option<String>,
}

/// The mathematical value of an [`EventFilter`].
pub struct FilterView {
    pub event_type: Option<Seq<char>>,
    pub min_priority: Option<Priority>,
    pub source: Option<Seq<char>>,
}

pub open spec fn string_option_view(s: Option<String>) -> Option<Seq<char>> {
    match s {
        Some(s) => Some(s@),
        None => None,
    }
}

impl View for EventFilter {
    type V = FilterView;

    open spec fn view(&self) -> FilterView {
        FilterView {
            event_type: string_option_view(self.event_type),
            min_priority: self.min_priority,
            source: string_option_view(self.source),
        }
    }
}

impl FilterView {
    /// The filter with no criterion at all.
    pub open spec fn empty() -> FilterView {
        FilterView { event_type: None, min_priority: None, source: None }
    }

    /// Whether an event satisfies every criterion of the filter.
    pub open spec fn admits(self, e: EventView) -> bool {
        &&& (self.event_type matches Some(t) ==> e.event_type == t)
        &&& (self.min_priority matches Some(p) ==> e.priority.at_least(p))
        &&& (self.source matches Some(s) ==> e.source == s)
    }
}

impl EventFilter {
    /// Create an empty filter that matches everything.
    pub fn new() -> (f: EventFilter)
        ensures
            f@ == FilterView::empty(),
    {
        EventFilter { event_type: None, min_priority: None, source: None }
    }

    /// Only match events of this type.
    pub fn event_type(self, t: &str) -> (f: EventFilter)
        ensures
            f@ == (FilterView { event_type: Some(t@), ..self@ }),
    {
        let mut f = self;
        f.event_type = Some(t.to_owned());
        f
    }

    /// Only match events with at least this priority.
    pub fn min_priority(self, p: Priority) -> (f: EventFilter)
        ensures
            f@ == (FilterView { min_priority: Some(p), ..self@ }),
    {
        let mut f = self;
        f.min_priority = Some(p);
        f
    }

    /// Only match events from this source.
    pub fn source(self, s: &str) -> (f: EventFilter)
        ensures
            f@ == (FilterView { source: Some(s@), ..self@ }),
    {
        let mut f = self;
        f.source = Some(s.to_owned());
        f
    }

    /// Check whether an event matches this filter.
    pub fn matches(&self, event: &Event) -> (b: bool)
        ensures
            b == self@.admits(event@),
    {
        if let Some(ref t) = self.event_type {
            if !(event.event_type == *t) {
                return false;
            }
        }
        if let Some(min) = self.min_priority {
            if event.priority < min {
                return false;
            }
        }
        if let Some(ref s) = self.source {
            if !(event.source == *s) {
                return false;
            }
        }
        true
    }
}

fn clone_string_option(s: &Option<String>) -> (r: Option<String>)
    ensures
        r == *s,
{
    match s {
        Some(s) => Some(s.clone()),
        None => None,
    }
}

impl Clone for EventFilter {
    fn clone(&self) -> (f: EventFilter)
        ensures
            f == *self,
    {
        EventFilter {
            event_type: clone_string_option(&self.event_type),
            min_priority: self.min_priority,
            source: clone_string_option(&self.source),
        }
    }
}

impl Default for EventFilter {
    fn default() -> (f: EventFilter)
        ensures
            f@ == FilterView::empty(),
    {
        EventFilter::new()
    }
}

/// The empty filter matches every event.
pub proof fn lemma_empty_filter_admits_all(e: EventView)
    ensures
        FilterView::empty().admits(e),
{
}

/// The criteria are combined with AND: a filter matches an event exactly when
/// the event-type criterion alone, the minimum-priority criterion alone and the
/// source criterion alone each match it.
pub proof fn lemma_filter_is_conjunction(f: FilterView, e: EventView)
    ensures
        f.admits(e) <==> {
            &&& (FilterView { event_type: f.event_type, ..FilterView::empty() }).admits(e)
            &&& (FilterView { min_priority: f.min_priority, ..FilterView::empty() }).admits(e)
            &&& (FilterView { source: f.source, ..FilterView::empty() }).admits(e)
        },
{
}

/// Setting a criterion narrows a filter: the filter with the criterion set
/// matches exactly the events that the filter without it matches and that
/// satisfy the criterion.
pub proof fn lemma_criteria_narrow(f: FilterView, t: Seq<char>, p: Priority, s: Seq<char>, e: EventView)
    ensures
        (FilterView { event_type: Some(t), ..f }).admits(e) <==> (FilterView { event_type: None, ..f }).admits(e) && e.event_type == t,
        (FilterView { min_priority: Some(p), ..f }).admits(e) <==> (FilterView { min_priority: None, ..f }).admits(e) && e.priority.at_least(p),
        (FilterView { source: Some(s), ..f }).admits(e) <==> (FilterView { source: None, ..f }).admits(e) && e.source == s,
{
}

/// A minimum-priority criterion admits every priority at or above its
/// threshold: an event admitted at threshold `p` is admitted at any threshold
/// `q` not above `p`.
pub proof fn lemma_min_priority_monotone(f: FilterView, p: Priority, q: Priority, e: EventView)
    requires
        p.at_least(q),
        (FilterView { min_priority: Some(p), ..f }).admits(e),
    ensures
        (FilterView { min_priority: Some(q), ..f }).admits(e),
{
}

} // verus!
