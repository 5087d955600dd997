//! When an entry was written, and for how long it lives.

use vstd::prelude::*;

verus! {

/// The moment an entry was written and its time to live, both in nanoseconds.
///
/// A time to live of zero means that the entry never expires.
#[derive(Debug, Clone, Copy, PartialEq, Eq, Structural)]
pub struct Time {
    pub created_at: u128,
    pub ttl: u128,
}

impl Time {
    /// Whether an entry written at this time is expired at `now`.
    pub open spec fn expired_at(self, now: u128) -> bool {
        self.ttl != 0 && now - self.created_at >= self.ttl
    }

    /// The time of an entry written at `now` that lives for `ttl` nanoseconds.
    pub fn new(now: u128, ttl: u128) -> (t: Self)
        ensures
            t.created_at == now,
            t.ttl == ttl,
    {
        Time { created_at: now, ttl }
    }

    /// Whether the entry never expires.
    pub fn is_zero(&self) -> (r: bool)
        ensures
            r == (self.ttl == 0),
            r ==> forall|now: u128| !#[trigger] self.expired_at(now),
    {
        self.ttl == 0
    }

    /// Whether the entry is expired at `now`.
    pub fn is_expired(&self, now: u128) -> (r: bool)
        ensures
            r == self.expired_at(now),
    {
        self.ttl != 0 && now >= self.created_at && now - self.created_at >= self.ttl
    }
}

} // verus!
