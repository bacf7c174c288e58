//! Limits on how many bytes a store may hold.
//!
//! The counted total behaves like real file system usage: a new object adds
//! its size, overwriting one replaces its old size by its new size, deleting
//! one subtracts its size, and renaming one changes nothing.
//!
//! Totals are kept in memory, one per quota id, and are the only point of
//! enforcement. A tracker holds them across restarts: an id is loaded from it
//! on its first touch, and written back to it from time to time.
//!
//! [`reservation`] is the other way to keep a limit: it asks the tracker on
//! every write, and limits what is written rather than what is held.

pub mod counter;
pub mod reservation;
pub mod staged;
pub mod state;
pub mod tracker;

pub use counter::QuotaCounter;
pub use staged::{CloseStep, QuotaCopier, QuotaDeleter, QuotaLayer, QuotaWriter};
pub use state::{Bucket, QuotaState, Step, Touch};
pub use tracker::MemoryTracker;
