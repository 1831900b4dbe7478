//! In-process publish/subscribe event dispatch with ternary priorities.
//!
//! Every event carries a priority (`Low`, `Normal` or `Critical`).
//! Subscribers register an [`EventFilter`] (event type, minimum priority,
//! source; all three combined with AND) together with a callback, and the
//! [`EventBus`] invokes the callbacks of the matching subscribers when an
//! event is published. Every published event is also recorded in a bounded,
//! append-only [`EventHistory`] that can be replayed.

pub mod bus;
pub mod callback;
pub mod clock;
pub mod event;
pub mod filter;
pub mod history;
pub mod priority;

pub use bus::{BusView, EventBus, SubscriberId, Subscription};
pub use callback::Callback;
pub use clock::epoch_timestamp;
pub use event::{Event, EventEmitter, EventView};
pub use filter::{EventFilter, FilterView};
pub use history::EventHistory;
pub use priority::Priority;
