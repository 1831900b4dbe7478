//! Callbacks: functions or closures that the bus hands events to.

use vstd::prelude::*;
use crate::event::Event;
use crate::filter::{EventFilter, FilterView};

verus! {

/// Something the bus can hand an event to.
///
/// Every `Fn(&Event)` (a function or a closure) is a listener; it accepts the
/// events on which it can be called.
trait Listener {
    /// Whether the listener can be handed this event.
    spec fn accepts(&self, event: &Event) -> bool;

    /// What holds once the listener has been handed this event.
    spec fn handled(&self, event: &Event) -> bool;

    /// Hand an event to the listener.
    fn notify(&self, event: &Event)
        requires
            self.accepts(event),
        ensures
            self.handled(event),
    ;
}

impl<F: Fn(&Event)> Listener for F {
    closed spec fn accepts(&self, event: &Event) -> bool {
        self.requires((event,))
    }

    closed spec fn handled(&self, event: &Event) -> bool {
        self.ensures((event,), ())
    }

    fn notify(&self, event: &Event) {
        (self)(event)
    }
}

/// A callback registered on the bus: any function or closure taking `&Event`,
/// possibly confined to the events that a filter admits.
pub struct Callback {
    listener: Box<dyn Listener>,
    scope: Ghost<FilterView>,
}

impl Callback {
    /// Whether the callback can be called with this event: the wrapped
    /// function can, and the callback's scope admits the event.
    pub closed spec fn accepts(&self, event: &Event) -> bool {
        self.listener.accepts(event) && self.scope@.admits(event@)
    }

    /// What holds once the callback has run on this event: the
    /// postcondition of the wrapped function for it.
    pub closed spec fn ran_on(&self, event: &Event) -> bool {
        self.listener.handled(event)
    }

    /// The callback behaves as `f`: it can be called exactly where `f` can,
    /// and running it establishes exactly what running `f` does.
    pub open spec fn wraps<F: Fn(&Event)>(self, f: F) -> bool {
        &&& forall|e: &Event| #[trigger] self.accepts(e) <==> f.requires((e,))
        &&& forall|e: &Event| #[trigger] self.ran_on(e) <==> f.ensures((e,), ())
    }

    /// The callback behaves as `f` confined to the events `filter` admits: it
    /// can be called exactly on the admitted events on which `f` can, and
    /// running it establishes exactly what running `f` does.
    pub open spec fn wraps_within<F: Fn(&Event)>(self, f: F, filter: FilterView) -> bool {
        &&& forall|e: &Event| #[trigger] self.accepts(e) <==> f.requires((e,)) && filter.admits(e@)
        &&& forall|e: &Event| #[trigger] self.ran_on(e) <==> f.ensures((e,), ())
    }

    /// Wrap a function or closure as a callback.
    pub fn new<F: Fn(&Event) + 'static>(f: F) -> (c: Callback)
        ensures
            c.wraps(f),
    {
        let listener: Box<dyn Listener> = Box::new(f);
        Callback { listener, scope: Ghost(FilterView::empty()) }
    }

    /// Wrap a function or closure as a callback that can only be called on
    /// the events `filter` admits.
    pub fn within<F: Fn(&Event) + 'static>(f: F, filter: &EventFilter) -> (c: Callback)
        ensures
            c.wraps_within(f, filter@),
    {
        let listener: Box<dyn Listener> = Box::new(f);
        Callback { listener, scope: Ghost(filter@) }
    }

    /// Call the callback with an event.
    pub fn call(&self, event: &Event)
        requires
            self.accepts(event),
        ensures
            self.ran_on(event),
    {
        self.listener.notify(event)
    }
}

} // verus!
