//! A reactive entity runtime: application state lives in entities owned by a
//! store, is reached only through handles and scoped contexts, and announces
//! its changes through a queue of deferred effects.
//!
//! The parts, leaves first:
//!
//! - [`entity`]: the store, with strong and weak handles and the lease that
//!   takes a value out for the time of an update;
//! - [`effect`]: the queue of pending notifications, first in, first out;
//! - [`subscription`]: the registries of callbacks, in registration order;
//! - [`global`] and [`window`]: singletons by type, and the table of windows;
//! - [`state`]: the runtime as a mathematical value, and what holds of it
//!   through every operation;
//! - [`app`]: the runtime itself and its single steps;
//! - [`delivery`]: the dispatch of effects to the registered callbacks, and
//!   the flush;
//! - [`update`]: the operations that run a caller's closure on the runtime,
//!   an entity, a global or a window;
//! - [`model_context`]: the context of one entity;
//! - [`async_context`]: the bridge for other threads and tasks, behind a
//!   lock that is taken without waiting: a call made while another is under
//!   way fails, and the caller decides whether to try again.
//!
//! Entities, globals, events and windows hold values of one type that the
//! caller chooses, and callbacks are values of another; type tags tell what
//! a value stands for. A broken invariant is reported as a `Violation` and
//! never masked; the caller decides how to stop.

pub mod app;
pub mod async_context;
pub mod delivery;
pub mod effect;
pub mod entity;
pub mod error;
pub mod global;
pub mod model_context;
pub mod state;
pub mod subscription;
pub mod update;
pub mod window;

pub use crate::app::AppContext;
pub use crate::async_context::{App, AsyncAppContext, AsyncWindowContext};
pub use crate::delivery::{Callback, Delivery, NoCallback};
pub use crate::effect::{Effect, EffectQueue, Effects};
pub use crate::entity::{
    Entities, EntityId, EntityMap, Entry, Handle, Lease, Slot, SlotState, StoreOp, TypeTag,
    WeakHandle,
};
pub use crate::error::{BridgeError, Violation};
pub use crate::global::{GlobalLease, GlobalMap, Globals};
pub use crate::model_context::ModelContext;
pub use crate::state::{AppState, Dropped, Flush, Turn};
pub use crate::subscription::{
    Handler, Key, RegistryOp, Relation, Subscriber, SubscriberSet, Subscribers, Subscription,
};
pub use crate::window::{Window, WindowId, WindowLease, WindowMap, Windows};
