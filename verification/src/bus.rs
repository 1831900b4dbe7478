//! The publish/subscribe dispatcher.

use vstd::prelude::*;
use std::collections::HashMap;
use crate::event::{Event, EventView};
use crate::filter::{EventFilter, FilterView};
use crate::callback::Callback;
use crate::history::{after_appends, keep_newest, lemma_history_keeps_newest, views_of, EventHistory};

verus! {

broadcast use vstd::std_specs::hash::group_hash_axioms;

/// A subscriber ID, used to unsubscribe.
pub type SubscriberId = u64;

/// A filtered listener registered on the bus.
pub struct Subscription {
    pub id: SubscriberId,
    pub filter: EventFilter,
    pub callback: Callback,
}

/// The mathematical state of an [`EventBus`].
pub struct BusView {
    /// The filter of each current subscriber, by ID.
    pub subscribers: Map<SubscriberId, FilterView>,
    /// The callback of each current subscriber, by ID.
    pub callbacks: Map<SubscriberId, Callback>,
    /// The ID the next subscription receives.
    pub next_id: SubscriberId,
    /// The recorded events, oldest first.
    pub history: Seq<EventView>,
    /// The largest number of events the history retains.
    pub capacity: nat,
}

impl BusView {
    /// There are finitely many subscribers, each with a filter and a callback,
    /// every subscriber ID was handed out before `next_id`, and the history
    /// holds no more than its capacity.
    pub open spec fn well_formed(self) -> bool {
        &&& self.subscribers.dom().finite()
        &&& self.callbacks.dom() == self.subscribers.dom()
        &&& forall|id: SubscriberId| #[trigger] self.subscribers.contains_key(id) ==> id < self.next_id
        &&& self.history.len() <= self.capacity
    }

    /// The state after subscribing `callback` with `filter`, and the ID handed out.
    pub open spec fn subscribe(self, filter: FilterView, callback: Callback) -> (BusView, SubscriberId) {
        (
            BusView {
                subscribers: self.subscribers.insert(self.next_id, filter),
                callbacks: self.callbacks.insert(self.next_id, callback),
                next_id: (self.next_id + 1) as SubscriberId,
                ..self
            },
            self.next_id,
        )
    }

    /// The state after unsubscribing `id`, and whether `id` was subscribed.
    pub open spec fn unsubscribe(self, id: SubscriberId) -> (BusView, bool) {
        (
            BusView {
                subscribers: self.subscribers.remove(id),
                callbacks: self.callbacks.remove(id),
                ..self
            },
            self.subscribers.contains_key(id),
        )
    }

    /// The state after publishing `e`: the subscribers stay, the event is recorded.
    pub open spec fn publish(self, e: EventView) -> BusView {
        BusView { history: keep_newest(self.history.push(e), self.capacity), ..self }
    }

    /// Every subscriber's callback can be called exactly on the events that
    /// the subscriber's filter admits.
    pub open spec fn callbacks_scoped(self) -> bool {
        forall|id: SubscriberId, e: &Event| #[trigger] self.subscribers.contains_key(id) ==>
            (#[trigger] self.callbacks[id].accepts(e) <==> self.subscribers[id].admits(e@))
    }

    /// Whether subscriber `id` is notified of event `e`.
    pub open spec fn notified(self, id: SubscriberId, e: EventView) -> bool {
        self.subscribers.contains_key(id) && self.subscribers[id].admits(e)
    }
}

/// Subscribing hands out an ID that no current subscriber holds, adds exactly
/// that subscriber with its filter and callback, keeps every other subscriber
/// with its filter and callback, and keeps the state well formed.
pub proof fn lemma_subscribe_adds_fresh_subscriber(v: BusView, f: FilterView, c: Callback)
    requires
        v.well_formed(),
        v.next_id < u64::MAX,
    ensures
        ({
            let (w, id) = v.subscribe(f, c);
            &&& !v.subscribers.contains_key(id)
            &&& w.subscribers.contains_key(id)
            &&& w.subscribers[id] == f
            &&& w.callbacks[id] == c
            &&& forall|k: SubscriberId| #[trigger] v.subscribers.contains_key(k) ==>
                    w.subscribers[k] == v.subscribers[k] && w.callbacks[k] == v.callbacks[k]
            &&& w.subscribers.len() == v.subscribers.len() + 1
            &&& w.well_formed()
            &&& w.history == v.history
        }),
{
}

/// The subscriber IDs handed out by successive subscriptions are all distinct.
pub proof fn lemma_subscription_ids_distinct(v: BusView, f: FilterView, c: Callback, g: FilterView, d: Callback)
    requires
        v.well_formed(),
        v.next_id < u64::MAX - 1,
    ensures
        v.subscribe(f, c).1 != v.subscribe(f, c).0.subscribe(g, d).1,
        !v.subscribe(f, c).0.subscribers.contains_key(v.subscribe(f, c).0.subscribe(g, d).1),
{
}

/// Unsubscribing undoes subscribing: it reports that the new subscriber
/// existed and leaves the subscribers, their callbacks and the history as they
/// were before.
pub proof fn lemma_unsubscribe_undoes_subscribe(v: BusView, f: FilterView, c: Callback)
    requires
        v.well_formed(),
        v.next_id < u64::MAX,
    ensures
        ({
            let (w, id) = v.subscribe(f, c);
            let (x, existed) = w.unsubscribe(id);
            &&& existed
            &&& x.subscribers == v.subscribers
            &&& x.callbacks == v.callbacks
            &&& x.history == v.history
            &&& x.capacity == v.capacity
        }),
{
    let (w, id) = v.subscribe(f, c);
    assert(w.subscribers.remove(id) =~= v.subscribers);
    assert(w.callbacks.remove(id) =~= v.callbacks);
}

/// Unsubscribing an ID that no subscriber holds reports `false` and leaves
/// the state entirely unchanged.
pub proof fn lemma_unsubscribe_absent_changes_nothing(v: BusView, id: SubscriberId)
    requires
        v.well_formed(),
        !v.subscribers.contains_key(id),
    ensures
        !v.unsubscribe(id).1,
        v.unsubscribe(id).0 == v,
{
    assert(v.subscribers.remove(id) =~= v.subscribers);
    assert(v.callbacks.remove(id) =~= v.callbacks);
}

/// Unsubscribing removes the subscriber for good: a second unsubscribe of the
/// same ID reports that it did not exist and changes nothing; every other
/// subscriber keeps its filter and callback.
pub proof fn lemma_unsubscribe_twice(v: BusView, id: SubscriberId)
    ensures
        !v.unsubscribe(id).0.unsubscribe(id).1,
        v.unsubscribe(id).0.unsubscribe(id).0 == v.unsubscribe(id).0,
        !v.unsubscribe(id).0.subscribers.contains_key(id),
        forall|k: SubscriberId| k != id && #[trigger] v.subscribers.contains_key(k) ==>
            v.unsubscribe(id).0.subscribers[k] == v.subscribers[k]
            && v.unsubscribe(id).0.callbacks[k] == v.callbacks[k],
{
    assert(v.subscribers.remove(id).remove(id) =~= v.subscribers.remove(id));
    assert(v.callbacks.remove(id).remove(id) =~= v.callbacks.remove(id));
}

/// Publishing keeps the subscribers with their filters and callbacks, keeps the
/// state well formed, and records the event as the newest one in the history.
pub proof fn lemma_publish_records_event(v: BusView, e: EventView)
    requires
        v.well_formed(),
        v.capacity > 0,
    ensures
        v.publish(e).subscribers == v.subscribers,
        v.publish(e).callbacks == v.callbacks,
        v.publish(e).next_id == v.next_id,
        v.publish(e).well_formed(),
        v.publish(e).history.len() > 0,
        v.publish(e).history.last() == e,
{
}

/// Callbacks run only on the events their subscriber is notified of: calling
/// a callback requires that it accepts the event (`Callback::call`), and a
/// subscriber's callback accepts exactly the events on which that subscriber
/// is notified. So no code, `publish` included, can run a subscriber's
/// callback on an event its filter rejects.
pub proof fn lemma_callbacks_run_only_when_notified(v: BusView, id: SubscriberId, e: &Event)
    requires
        v.callbacks_scoped(),
        v.subscribers.contains_key(id),
    ensures
        v.callbacks[id].accepts(e) <==> v.notified(id, e@),
{
}

/// One call on the bus, as it acts on the bus's state.
pub enum BusStep {
    Subscribe(FilterView, Callback),
    Unsubscribe(SubscriberId),
    Publish(EventView),
}

impl BusView {
    /// The state after one call.
    pub open spec fn step(self, s: BusStep) -> BusView {
        match s {
            BusStep::Subscribe(f, c) => self.subscribe(f, c).0,
            BusStep::Unsubscribe(id) => self.unsubscribe(id).0,
            BusStep::Publish(e) => self.publish(e),
        }
    }

    /// The state after a sequence of calls, the first one first.
    pub open spec fn run(self, steps: Seq<BusStep>) -> BusView
        decreases steps.len(),
    {
        if steps.len() == 0 {
            self
        } else {
            self.run(steps.drop_last()).step(steps.last())
        }
    }
}

/// The number of subscribe calls among `steps`.
pub open spec fn subscribe_calls(steps: Seq<BusStep>) -> nat
    decreases steps.len(),
{
    if steps.len() == 0 {
        0
    } else {
        subscribe_calls(steps.drop_last()) + if steps.last() is Subscribe { 1nat } else { 0nat }
    }
}

/// The number of unsubscribe calls among `steps`, run from `v`, that report
/// the subscriber existed.
pub open spec fn successful_unsubscribes(v: BusView, steps: Seq<BusStep>) -> nat
    decreases steps.len(),
{
    if steps.len() == 0 {
        0
    } else {
        successful_unsubscribes(v, steps.drop_last()) + match steps.last() {
            BusStep::Unsubscribe(id) => if v.run(steps.drop_last()).subscribers.contains_key(id) {
                1nat
            } else {
                0nat
            },
            _ => 0nat,
        }
    }
}

/// IDs are handed out in call order: after any sequence of calls, the next
/// subscription receives the starting `next_id` plus the number of subscribe
/// calls made (so a new bus hands out 0, 1, 2, ...), and the number of
/// subscribers is the starting number plus the subscribe calls minus the
/// unsubscribe calls that found their subscriber. The state stays well formed.
pub proof fn lemma_run_counts_calls(v: BusView, steps: Seq<BusStep>)
    requires
        v.well_formed(),
        v.next_id + subscribe_calls(steps) <= u64::MAX,
    ensures
        v.run(steps).well_formed(),
        v.run(steps).next_id == v.next_id + subscribe_calls(steps),
        v.run(steps).subscribers.len() + successful_unsubscribes(v, steps)
            == v.subscribers.len() + subscribe_calls(steps),
    decreases steps.len(),
{
    if steps.len() > 0 {
        let prefix = steps.drop_last();
        lemma_run_counts_calls(v, prefix);
        let u = v.run(prefix);
        match steps.last() {
            BusStep::Subscribe(f, c) => {
                lemma_subscribe_adds_fresh_subscriber(u, f, c);
            },
            BusStep::Unsubscribe(id) => {
                if u.subscribers.contains_key(id) {
                    assert(u.subscribers.remove(id).len() == u.subscribers.len() - 1);
                } else {
                    lemma_unsubscribe_absent_changes_nothing(u, id);
                }
                assert(u.unsubscribe(id).0.callbacks.dom() =~= u.unsubscribe(id).0.subscribers.dom());
            },
            BusStep::Publish(e) => {
            },
        }
    }
}

/// The values of the events published among `steps`, in call order.
pub open spec fn published(steps: Seq<BusStep>) -> Seq<EventView>
    decreases steps.len(),
{
    if steps.len() == 0 {
        Seq::empty()
    } else {
        match steps.last() {
            BusStep::Publish(e) => published(steps.drop_last()).push(e),
            _ => published(steps.drop_last()),
        }
    }
}

/// The history only changes by publishing: after any sequence of calls on a
/// state whose history has positive capacity, the history holds exactly the
/// newest `capacity` events of what it held before followed by the events
/// published, in publish order; subscribing and unsubscribing never change it,
/// nor the capacity.
pub proof fn lemma_run_history(v: BusView, steps: Seq<BusStep>)
    requires
        v.well_formed(),
        v.capacity > 0,
    ensures
        v.run(steps).capacity == v.capacity,
        v.run(steps).history == keep_newest(v.history + published(steps), v.capacity),
{
    lemma_run_history_steps(v, steps);
    lemma_history_keeps_newest(v.history, published(steps), v.capacity);
}

/// The history after a run is the history after appending the published
/// events one by one.
proof fn lemma_run_history_steps(v: BusView, steps: Seq<BusStep>)
    ensures
        v.run(steps).capacity == v.capacity,
        v.run(steps).history == after_appends(v.history, published(steps), v.capacity),
    decreases steps.len(),
{
    if steps.len() > 0 {
        let prefix = steps.drop_last();
        lemma_run_history_steps(v, prefix);
        match steps.last() {
            BusStep::Publish(e) => {
                let p = published(steps);
                assert(p.drop_last() == published(prefix));
                assert(p.last() == e);
            },
            _ => {},
        }
    }
}

/// `f` has run on an event whose value is `v`: its postcondition holds for
/// some event with that value.
pub open spec fn ran_on_event<F: Fn(&Event)>(f: F, v: EventView) -> bool {
    exists|e: &Event| #[trigger] f.ensures((e,), ()) && e@ == v
}

/// Central publish/subscribe dispatcher.
pub struct EventBus {
    subscriptions: HashMap<SubscriberId, Subscription>,
    next_id: SubscriberId,
    history: EventHistory,
}

impl View for EventBus {
    type V = BusView;

    closed spec fn view(&self) -> BusView {
        BusView {
            subscribers: self.subscriptions@.map_values(|s: Subscription| s.filter@),
            callbacks: self.subscriptions@.map_values(|s: Subscription| s.callback),
            next_id: self.next_id,
            history: self.history@,
            capacity: self.history.capacity(),
        }
    }
}

impl EventBus {
    #[verifier::type_invariant]
    spec fn registry_consistent(self) -> bool {
        forall|id: SubscriberId| #[trigger] self.subscriptions@.contains_key(id) ==> {
            &&& id < self.next_id
            &&& self.subscriptions@[id].id == id
            &&& forall|e: &Event| #[trigger] self.subscriptions@[id].callback.accepts(e)
                    <==> self.subscriptions@[id].filter@.admits(e@)
        }
    }

    /// The view of a bus that satisfies its invariants is well formed.
    proof fn lemma_view_well_formed(bus: EventBus)
        requires
            bus.registry_consistent(),
            bus.history.within_capacity(),
        ensures
            bus@.well_formed(),
            bus@.callbacks_scoped(),
    {
        EventHistory::lemma_bounded(bus.history);
        assert(bus@.subscribers.dom() =~= bus.subscriptions@.dom());
        assert(bus@.callbacks.dom() =~= bus.subscriptions@.dom());
        assert(bus.subscriptions@.dom().finite());
    }

    /// The recorded history.
    pub closed spec fn recorded(&self) -> EventHistory {
        self.history
    }

    /// Create a new event bus with unbounded history.
    pub fn new() -> (bus: EventBus)
        ensures
            bus@ == (BusView {
                subscribers: Map::empty(),
                callbacks: Map::empty(),
                next_id: 0,
                history: Seq::empty(),
                capacity: usize::MAX as nat,
            }),
            bus@.well_formed(),
            bus@.callbacks_scoped(),
    {
        let bus = EventBus { subscriptions: HashMap::new(), next_id: 0, history: EventHistory::new() };
        assert(bus@.subscribers =~= Map::empty());
        assert(bus@.callbacks =~= Map::empty());
        bus
    }

    /// Create a bus with bounded history.
    pub fn with_history_capacity(max_history: usize) -> (bus: EventBus)
        ensures
            bus@ == (BusView {
                subscribers: Map::empty(),
                callbacks: Map::empty(),
                next_id: 0,
                history: Seq::empty(),
                capacity: max_history as nat,
            }),
            bus@.well_formed(),
            bus@.callbacks_scoped(),
    {
        let bus = EventBus {
            subscriptions: HashMap::new(),
            next_id: 0,
            history: EventHistory::with_capacity(max_history),
        };
        assert(bus@.subscribers =~= Map::empty());
        assert(bus@.callbacks =~= Map::empty());
        bus
    }

    /// Subscribe to events matching a filter. Returns the subscriber ID.
    pub fn subscribe<F: Fn(&Event) + 'static>(&mut self, filter: EventFilter, callback: F) -> (id: SubscriberId)
        requires
            old(self)@.next_id < u64::MAX,
            forall|e: &Event| callback.requires((e,)),
        ensures
            final(self)@.callbacks[id].wraps_within(callback, filter@),
            (final(self)@, id) == old(self)@.subscribe(filter@, final(self)@.callbacks[id]),
            !old(self)@.subscribers.contains_key(id),
            final(self)@.well_formed(),
            final(self)@.callbacks_scoped(),
    {
        proof {
            use_type_invariant(&*self);
        }
        let id = self.next_id;
        self.next_id = id + 1;
        let callback = Callback::within(callback, &filter);
        let sub = Subscription { id, filter, callback };
        let mut subscriptions: HashMap<SubscriberId, Subscription> = HashMap::new();
        std::mem::swap(&mut subscriptions, &mut self.subscriptions);
        subscriptions.insert(id, sub);
        self.subscriptions = subscriptions;
        assert(self@.subscribers =~= old(self)@.subscribers.insert(id, filter@));
        assert(self@.callbacks =~= old(self)@.callbacks.insert(id, self@.callbacks[id]));
        proof {
            use_type_invariant(&*self);
            use_type_invariant(&self.history);
            EventBus::lemma_view_well_formed(*self);
        }
        id
    }

    /// Unsubscribe by ID. Returns true if it existed.
    pub fn unsubscribe(&mut self, id: SubscriberId) -> (existed: bool)
        ensures
            (final(self)@, existed) == old(self)@.unsubscribe(id),
            final(self)@.well_formed(),
            final(self)@.callbacks_scoped(),
    {
        proof {
            use_type_invariant(&*self);
        }
        let mut subscriptions: HashMap<SubscriberId, Subscription> = HashMap::new();
        std::mem::swap(&mut subscriptions, &mut self.subscriptions);
        let removed = subscriptions.remove(&id);
        self.subscriptions = subscriptions;
        assert(self@.subscribers =~= old(self)@.subscribers.remove(id));
        assert(self@.callbacks =~= old(self)@.callbacks.remove(id));
        proof {
            use_type_invariant(&*self);
            use_type_invariant(&self.history);
            EventBus::lemma_view_well_formed(*self);
        }
        removed.is_some()
    }

    /// The IDs of the subscribers whose filter matches `event`, each once.
    pub fn matching_subscribers(&self, event: &Event) -> (ids: Vec<SubscriberId>)
        ensures
            ids@.no_duplicates(),
            forall|id: SubscriberId| ids@.contains(id) <==> self@.notified(id, event@),
    {
        let mut ids: Vec<SubscriberId> = Vec::new();
        for k in it: self.subscriptions.keys()
            invariant
                it.seq().no_duplicates(),
                it.seq().unref().to_set() == self.subscriptions@.dom(),
                ids@.no_duplicates(),
                forall|id: SubscriberId| #[trigger] ids@.contains(id) ==> self@.notified(id, event@)
                    && exists|i: int| 0 <= i < it.index() && *it.seq()[i] == id,
                forall|i: int| 0 <= i < it.index() && self@.notified(*it.seq()[i], event@) ==> ids@.contains(*it.seq()[i]),
            ensures
                forall|id: SubscriberId| self@.notified(id, event@) ==> ids@.contains(id),
        {
            let ghost at = it.index();
            assert(*k == *it.seq()[at]);
            assert(it.seq().unref()[at] == *k);
            assert(self.subscriptions@.contains_key(*k));
            let ghost prev = ids@;
            match self.subscriptions.get(k) {
                Some(sub) => {
                    assert(self@.subscribers[*k] == sub.filter@);
                    if sub.filter.matches(event) {
                        assert(!ids@.contains(*k)) by {
                            if ids@.contains(*k) {
                                let i = choose|i: int| 0 <= i < at && *it.seq()[i] == *k;
                                assert(it.seq()[i] == it.seq()[at]);
                            }
                        }
                        ids.push(*k);
                    }
                },
                None => {},
            }
            proof {
                assert forall|id: SubscriberId| #[trigger] ids@.contains(id) implies self@.notified(id, event@)
                    && exists|i: int| 0 <= i < at + 1 && *it.seq()[i] == id by {
                    if prev.contains(id) {
                        let i = choose|i: int| 0 <= i < at && *it.seq()[i] == id;
                        assert(0 <= i < at + 1 && *it.seq()[i] == id);
                    } else {
                        assert(id == *k);
                        assert(*it.seq()[at] == id);
                    }
                }
                assert forall|i: int| 0 <= i < at + 1 && self@.notified(*it.seq()[i], event@) implies ids@.contains(*it.seq()[i]) by {
                    if i < at {
                        assert(prev.contains(*it.seq()[i]));
                        let j = choose|j: int| 0 <= j < prev.len() && prev[j] == *it.seq()[i];
                        assert(ids@[j] == prev[j]);
                    } else {
                        assert(ids@.last() == *k);
                    }
                }
            }
        }
        proof {
            assert forall|id: SubscriberId| self@.notified(id, event@) implies ids@.contains(id) by {
                assert(self.subscriptions@.dom().contains(id));
            }
        }
        ids
    }

    /// Publish an event. Notifies all matching subscribers and appends to history.
    pub fn publish(&mut self, event: Event)
        requires
            old(self)@.capacity > 0,
        ensures
            final(self)@ == old(self)@.publish(event@),
            final(self)@.well_formed(),
            final(self)@.callbacks_scoped(),
            forall|id: SubscriberId| old(self)@.notified(id, event@) ==> #[trigger] old(self)@.callbacks[id].ran_on(&event),
    {
        proof {
            use_type_invariant(&*self);
        }
        let ids = self.matching_subscribers(&event);
        assert forall|j: int| 0 <= j < ids@.len() implies self@.notified(#[trigger] ids@[j], event@) by {
            assert(ids@.contains(ids@[j]));
        }
        self.notify_each(&ids, &event);
        assert forall|id: SubscriberId| old(self)@.notified(id, event@) implies #[trigger] old(self)@.callbacks[id].ran_on(&event) by {
            assert(ids@.contains(id));
            let j = choose|j: int| 0 <= j < ids@.len() && ids@[j] == id;
            assert(self@.subscribers.contains_key(ids@[j]));
        }
        let mut history = EventHistory::new();
        std::mem::swap(&mut history, &mut self.history);
        history.append(event);
        self.history = history;
        proof {
            use_type_invariant(&*self);
            use_type_invariant(&self.history);
            EventBus::lemma_view_well_formed(*self);
        }
    }

    /// Hand `event` to the callback of each subscriber in `ids`.
    fn notify_each(&self, ids: &Vec<SubscriberId>, event: &Event)
        requires
            forall|j: int| 0 <= j < ids@.len() ==> self@.notified(#[trigger] ids@[j], event@),
        ensures
            forall|j: int| 0 <= j < ids@.len() && self@.subscribers.contains_key(#[trigger] ids@[j])
                ==> self@.callbacks[ids@[j]].ran_on(event),
    {
        proof {
            use_type_invariant(self);
        }
        for i in 0..ids.len()
            invariant
                forall|id: SubscriberId| #[trigger] self.subscriptions@.contains_key(id) ==> forall|e: &Event| #[trigger] self.subscriptions@[id].callback.accepts(e)
                    <==> self.subscriptions@[id].filter@.admits(e@),
                forall|j: int| 0 <= j < ids@.len() ==> self@.notified(#[trigger] ids@[j], event@),
                forall|j: int| 0 <= j < i && self@.subscribers.contains_key(#[trigger] ids@[j])
                    ==> self@.callbacks[ids@[j]].ran_on(event),
        {
            if let Some(sub) = self.subscriptions.get(&ids[i]) {
                sub.callback.call(event);
            }
        }
    }

    /// Number of active subscriptions.
    pub fn subscription_count(&self) -> (n: usize)
        ensures
            n == self@.subscribers.len(),
            self@.well_formed(),
            self@.callbacks_scoped(),
    {
        proof {
            use_type_invariant(self);
            use_type_invariant(&self.history);
            EventBus::lemma_view_well_formed(*self);
        }
        assert(self@.subscribers.dom() =~= self.subscriptions@.dom());
        self.subscriptions.len()
    }

    /// Access the event history.
    pub fn history(&self) -> (h: &EventHistory)
        ensures
            *h == self.recorded(),
            h@ == self@.history,
            h.capacity() == self@.capacity,
            self@.well_formed(),
            self@.callbacks_scoped(),
    {
        proof {
            use_type_invariant(self);
            use_type_invariant(&self.history);
            EventBus::lemma_view_well_formed(*self);
        }
        &self.history
    }

    /// Replay all history events to a callback, oldest first (useful for
    /// late subscribers).
    pub fn replay_to<F: Fn(&Event)>(&self, callback: F)
        requires
            forall|e: &Event| callback.requires((e,)),
        ensures
            forall|i: int| 0 <= i < self@.history.len() ==> #[trigger] ran_on_event(callback, self@.history[i]),
    {
        let ghost recorded = self@.history;
        for event in it: self.history.replay()
            invariant
                forall|e: &Event| callback.requires((e,)),
                recorded == self@.history,
                views_of(it.seq()) == recorded,
                forall|i: int| 0 <= i < it.index() ==> #[trigger] ran_on_event(callback, recorded[i]),
        {
            let ghost at = it.index();
            assert(event@ == recorded[at]);
            callback(event);
            assert(ran_on_event(callback, recorded[at]));
        }
    }
}

impl Default for EventBus {
    fn default() -> (bus: EventBus)
        ensures
            bus@ == (BusView {
                subscribers: Map::empty(),
                callbacks: Map::empty(),
                next_id: 0,
                history: Seq::empty(),
                capacity: usize::MAX as nat,
            }),
            bus@.well_formed(),
            bus@.callbacks_scoped(),
    {
        EventBus::new()
    }
}

} // verus!
