//! The core of a cost-bounded cache.
//!
//! Values are stored under the hashes of their keys. Callers update and remove
//! stored values at once. Everything else, and what every value costs, travels
//! as messages through a bounded buffer to one working task, which lets new
//! values in, evicts others to make room for them, and takes out what expired.
//!
//! Nothing in here waits, sends, receives or reads a clock. A call that has to is
//! cut in two: the first half says what to send, the second takes what became of
//! it. What the callback is to be told comes back as notices.
//!
//! - [`builder`] holds the settings and builds a cache with its working task.
//! - [`cache`] is the cache as its callers see it.
//! - [`processor`] is the working task.
//! - [`frequency`] estimates how often keys are asked for.
//! - [`shared`] is what the two share: the [`store`] of values, the ledger of
//!   charges in [`policy`], and [`metrics`].
//! - [`item`] holds the messages and notices, [`ttl`] the life span of an entry,
//!   [`traits`] what a user can plug in, [`error`] the errors.
//! - [`laws`] proves what holds of the cache as a whole.

pub mod builder;
pub mod cache;
pub mod error;
pub mod frequency;
pub mod item;
pub mod laws;
pub mod metrics;
pub mod policy;
pub mod processor;
pub mod shared;
pub mod store;
pub mod traits;
pub mod ttl;
