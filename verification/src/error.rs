//! The errors of the cache.

use vstd::prelude::*;

verus! {

/// What can go wrong while a cache is built, used or closed.
#[derive(Debug, PartialEq, Eq)]
pub enum CacheError {
    /// The number of access counters is zero.
    InvalidNumCounters,
    /// The maximum cost is zero.
    InvalidMaxCost,
    /// The insert buffer has no room for any item.
    InvalidBufferSize,
    /// A message could not be handed to the working task.
    SendError(String),
    /// The working task could not receive a message.
    RecvError(String),
}

/// `text`, preceded by `prefix`.
pub(crate) fn prefixed(prefix: &str, text: &str) -> (r: String)
    ensures
        r@ == prefix@ + text@,
{
    let mut r = prefix.to_owned();
    r.append(text);
    r
}

} // verus!
