# ternary_event

An in-process publish/subscribe event bus whose events carry a ternary
priority (`Low < Normal < Critical`), written in Verus.

- `src/priority.rs` — the priority and its total order (`<` is proved to be the
  order of `Priority::level`).
- `src/event.rs` — events, their mathematical view, and `EventEmitter`.
- `src/clock.rs` — the wall clock that stamps `Event::new` (the only calls into
  `std::time`, behind small trusted wrappers).
- `src/filter.rs` — filters (type, minimum priority, source; combined with AND)
  and the laws that relate them.
- `src/history.rs` — the bounded append-only history; it always holds the
  newest `capacity` events, oldest first.
- `src/bus.rs` — the bus, modelled by `BusView` and its transitions
  `subscribe`, `unsubscribe` and `publish`, with the laws that relate them.

`tests/` exercises the library with concrete values.
