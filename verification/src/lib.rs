//! The crank engine of a task automation layer: a time-indexed cache of
//! scheduled tasks, a pool of per-attempt locks, a filter for incoming state
//! updates, and the scan that decides which due tasks to attempt on every
//! advance of the external clock.

pub mod task;
pub mod clock;
pub mod cache;
pub mod lock;
pub mod filter;
pub mod address;
pub mod attempt;
pub mod plugin;
pub mod laws;

pub use crate::address::{config_address, fee_address};
pub use crate::attempt::{build_request, AttemptOutcome, AttemptRefusal, ExecutionRequest};
pub use crate::cache::TaskCache;
pub use crate::clock::read_clock;
pub use crate::filter::{Filter, Notification};
pub use crate::lock::{AttemptGuard, AttemptLockPool};
pub use crate::plugin::{
    execute_pending_tasks, CronosPlugin, CronosPluginError, UpdateKind, LOOKBACK_WINDOW,
};
pub use crate::task::{AccountMetaData, Action, Identity, Schedule, TaskSnapshot, TaskStatus};
