//! A bounded, append-only log of events that can be replayed.

use vstd::prelude::*;
use crate::event::{Event, EventView};
use crate::filter::{EventFilter, FilterView};
use vstd::std_specs::iter::IteratorSpec;

verus! {

/// The newest `n` elements of `s`, in order: all of `s` when it holds no more
/// than `n` elements.
pub open spec fn keep_newest<A>(s: Seq<A>, n: nat) -> Seq<A> {
    if s.len() <= n {
        s
    } else {
        s.skip(s.len() - n)
    }
}

/// The predicate of a filter on event values.
pub open spec fn admitted_by(f: FilterView) -> spec_fn(EventView) -> bool {
    |v: EventView| f.admits(v)
}

/// The values of a sequence of borrowed events.
pub open spec fn views_of(s: Seq<&Event>) -> Seq<EventView> {
    s.map_values(|e: &Event| e@)
}

/// Append-only log of events with replay capability.
///
/// It holds at most `capacity` events; appending to a full history evicts the
/// oldest event.
#[derive(Debug)]
pub struct EventHistory {
    events: Vec<Event>,
    max_events: usize,
}

impl View for EventHistory {
    type V = Seq<EventView>;

    /// The stored events, oldest first.
    closed spec fn view(&self) -> Seq<EventView> {
        self.events@.map_values(|e: Event| e@)
    }
}

impl EventHistory {
    #[verifier::type_invariant]
    pub(crate) closed spec fn within_capacity(self) -> bool {
        self.events.len() <= self.max_events
    }

    /// What the type invariant says of the view.
    pub(crate) proof fn lemma_bounded(h: EventHistory)
        requires
            h.within_capacity(),
        ensures
            h@.len() <= h.capacity(),
    {
    }

    /// The largest number of events the history retains.
    pub closed spec fn capacity(&self) -> nat {
        self.max_events as nat
    }

    /// Create an unbounded history.
    pub fn new() -> (h: EventHistory)
        ensures
            h@ == Seq::<EventView>::empty(),
            h.capacity() == usize::MAX,
    {
        let h = EventHistory { events: Vec::new(), max_events: usize::MAX };
        assert(h@ =~= Seq::<EventView>::empty());
        h
    }

    /// Create a history with a maximum number of retained events.
    pub fn with_capacity(max: usize) -> (h: EventHistory)
        ensures
            h@ == Seq::<EventView>::empty(),
            h.capacity() == max,
    {
        let h = EventHistory { events: Vec::new(), max_events: max };
        assert(h@ =~= Seq::<EventView>::empty());
        h
    }

    /// Append an event. Evicts the oldest if at capacity.
    pub fn append(&mut self, event: Event)
        requires
            old(self).capacity() > 0,
        ensures
            final(self)@ == keep_newest(old(self)@.push(event@), old(self).capacity()),
            final(self).capacity() == old(self).capacity(),
            final(self)@.len() <= final(self).capacity(),
    {
        proof {
            use_type_invariant(&*self);
        }
        let ghost before = self.events@;
        let mut events: Vec<Event> = Vec::new();
        std::mem::swap(&mut events, &mut self.events);
        if events.len() >= self.max_events {
            events.remove(0);
        }
        events.push(event);
        self.events = events;
        proof {
            let after = before.push(event);
            if before.len() >= self.max_events {
                assert(self.events@ =~= after.skip(after.len() - self.max_events));
            } else {
                assert(self.events@ =~= after);
            }
            assert(self@ =~= keep_newest(old(self)@.push(event@), old(self).capacity()));
        }
    }

    /// Number of stored events.
    pub fn len(&self) -> (n: usize)
        ensures
            n == self@.len(),
            self@.len() <= self.capacity(),
    {
        proof {
            use_type_invariant(self);
        }
        self.events.len()
    }

    /// Returns true if there are no events.
    pub fn is_empty(&self) -> (b: bool)
        ensures
            b == (self@.len() == 0),
    {
        self.events.is_empty()
    }

    /// Replay (iterate) all stored events from oldest to newest.
    pub fn replay(&self) -> (it: std::slice::Iter<'_, Event>)
        ensures
            views_of(it.remaining()) == self@,
            it.decrease() is Some,
            it.initial_value_relation(&it),
    {
        let it = self.events.as_slice().iter();
        proof {
            broadcast use vstd::std_specs::slice::axiom_spec_slice_iter;
            assert(views_of(it.remaining()) =~= self@);
        }
        it
    }

    /// Replay only events matching a filter, oldest first.
    pub fn replay_filtered(&self, filter: &EventFilter) -> (r: Vec<&Event>)
        ensures
            views_of(r@) == self@.filter(admitted_by(filter@)),
    {
        let mut out: Vec<&Event> = Vec::new();
        let n = self.events.len();
        let ghost pred = admitted_by(filter@);
        for i in 0..n
            invariant
                n == self.events@.len(),
                pred == admitted_by(filter@),
                views_of(out@) == self@.take(i as int).filter(pred),
        {
            let e = &self.events[i];
            proof {
                assert(self@.take(i + 1) =~= self@.take(i as int).push(self@[i as int]));
                self@.take(i as int).lemma_filter_push(self@[i as int], pred);
            }
            let ghost prev = out@;
            if filter.matches(e) {
                out.push(e);
                proof {
                    assert(views_of(out@) =~= views_of(prev).push(e@));
                }
            }
        }
        proof {
            assert(self@.take(n as int) =~= self@);
        }
        out
    }

    /// Return the most recent event, if any.
    pub fn last(&self) -> (r: Option<&Event>)
        ensures
            match r {
                Some(e) => self@.len() > 0 && e@ == self@.last(),
                None => self@.len() == 0,
            },
    {
        self.events.last()
    }
}

/// The contents of a history holding `h` with capacity `n` after `es` are
/// appended one by one, oldest first.
pub open spec fn after_appends(h: Seq<EventView>, es: Seq<EventView>, n: nat) -> Seq<EventView>
    decreases es.len(),
{
    if es.len() == 0 {
        h
    } else {
        keep_newest(after_appends(h, es.drop_last(), n).push(es.last()), n)
    }
}

/// A history never holds more than its capacity, and what it holds is the
/// newest part of what was offered, in order.
pub proof fn lemma_keep_newest_is_bounded_suffix<A>(s: Seq<A>, n: nat)
    ensures
        keep_newest(s, n).len() == if s.len() <= n { s.len() } else { n },
        forall|i: int| 0 <= i < keep_newest(s, n).len() ==> #[trigger] keep_newest(s, n)[i] == s[s.len() - keep_newest(s, n).len() + i],
{
}

/// Reading back a write: after an append to a history of positive capacity,
/// the newest stored event is the appended one.
pub proof fn lemma_append_then_last<A>(s: Seq<A>, e: A, n: nat)
    requires
        n > 0,
    ensures
        keep_newest(s.push(e), n).len() > 0,
        keep_newest(s.push(e), n).last() == e,
{
}

/// Evicting in steps is evicting once: a history of positive capacity `n`
/// that starts with `h` (no longer than `n`) and receives `es` one by one holds
/// exactly the newest `n` events of `h + es`, oldest first.
pub proof fn lemma_history_keeps_newest(h: Seq<EventView>, es: Seq<EventView>, n: nat)
    requires
        n > 0,
        h.len() <= n,
    ensures
        after_appends(h, es, n) == keep_newest(h + es, n),
    decreases es.len(),
{
    if es.len() == 0 {
        assert(h + es =~= h);
    } else {
        let prefix = es.drop_last();
        lemma_history_keeps_newest(h, prefix, n);
        let whole = h + prefix;
        assert(h + es =~= whole.push(es.last()));
        let kept = keep_newest(whole, n);
        let pushed = whole.push(es.last());
        if whole.len() <= n {
            assert(kept == whole);
        } else {
            assert(keep_newest(kept.push(es.last()), n) =~= keep_newest(pushed, n));
        }
    }
}

/// Replaying through the empty filter replays everything.
pub proof fn lemma_empty_filter_replays_all(s: Seq<EventView>)
    ensures
        s.filter(admitted_by(FilterView::empty())) == s,
    decreases s.len(),
{
    if s.len() > 0 {
        lemma_empty_filter_replays_all(s.drop_last());
        assert(s =~= s.drop_last().push(s.last()));
        s.drop_last().lemma_filter_push(s.last(), admitted_by(FilterView::empty()));
    } else {
        reveal(Seq::filter);
    }
}

impl Clone for EventHistory {
    fn clone(&self) -> (h: EventHistory)
        ensures
            h@ == self@,
            h.capacity() == self.capacity(),
    {
        proof {
            use_type_invariant(self);
        }
        let events = self.events.clone();
        assert(events@ =~= self.events@);
        EventHistory { events, max_events: self.max_events }
    }
}

impl Default for EventHistory {
    fn default() -> (h: EventHistory)
        ensures
            h@ == Seq::<EventView>::empty(),
            h.capacity() == usize::MAX,
    {
        EventHistory::new()
    }
}

} // verus!
