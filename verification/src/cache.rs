//! The cache as its callers see it.
//!
//! A call that sends a message, or waits for the working task, is cut there: it
//! says what is to be sent, and a second call takes what became of that. An
//! insert does not wait for room in the insert buffer: it is told whether a place
//! is reserved for its message, and where there is none, it is dropped.

use std::collections::hash_map::RandomState;
use std::hash::{BuildHasher, Hash};
use std::marker::PhantomData;
use vstd::prelude::*;
use crate::error::{prefixed, CacheError};
use crate::item::Item;
use crate::metrics::MetricType;
use crate::shared::{Shared, SharedView};
use crate::store::{StoreItem, UpdateResult};
use crate::traits::{
    Coster, DefaultCacheCallback, DefaultCoster, DefaultKeyBuilder, DefaultUpdateValidator,
    KeyBuilder, UpdateValidator,
};
use crate::ttl::Time;

verus! {

/// A cache that admits and evicts by cost and frequency.
#[verifier::reject_recursive_types(V)]
#[verifier::reject_recursive_types(S)]
pub struct AsyncCache<
    K,
    V,
    KH = DefaultKeyBuilder,
    C = DefaultCoster<V>,
    U = DefaultUpdateValidator<V>,
    CB = DefaultCacheCallback<V>,
    S = RandomState,
> {
    /// What the cache shares with its working task.
    pub shared: Shared<V, U, S>,
    /// Is told of what leaves the cache.
    pub callback: CB,
    /// The hashing of keys.
    pub key_to_hash: KH,
    /// Evaluates items that are inserted with a cost of zero.
    pub coster: C,
    /// Whether the cache is closed.
    pub is_closed: bool,
    pub marker: PhantomData<K>,
}

/// What an insert remembers while its message is under way.
#[derive(Debug, Clone, Copy, PartialEq, Eq, Structural)]
pub struct InsertTicket {
    /// The index hash of the key.
    pub index: u64,
    /// Whether the store holds the value already.
    pub is_update: bool,
}

/// What an insert does next.
pub enum InsertStep<V, WG> {
    /// Answers `false`: nothing was inserted, and nothing will be.
    Dropped,
    /// Tells the callback of the value that was replaced, sends no message, and
    /// hands the ticket to `finish_insert` with `false`: the insert buffer has no
    /// room.
    Unsent { ticket: InsertTicket, exit: Option<V> },
    /// Tells the callback of the value that was replaced, sends the message to the
    /// place reserved for it, and hands the ticket to `finish_insert` with whether
    /// the insert buffer took the message.
    Send { item: Item<V, WG>, ticket: InsertTicket, exit: Option<V> },
}

/// The shared state after the first half of an insert, and what it does next.
#[verifier::reject_recursive_types(V)]
pub struct Inserted<V, WG> {
    pub shared: SharedView<V>,
    pub step: InsertStep<V, WG>,
}

/// The first half of an insert under the hashes `h` into an open cache.
///
/// Where the cost is zero, `evaluated` is what the item costs. Where the key is
/// in the store, `allowed` says whether its value is replaced. A replaced value
/// is visible at once; any other value travels to the working task first, unless
/// the insert is to update only. Nothing travels where there is no `room` in the
/// insert buffer, and then the cost does not matter.
pub open spec fn inserted<V, WG>(
    shared: SharedView<V>,
    h: (u64, u64),
    val: V,
    cost: i64,
    evaluated: i64,
    allowed: bool,
    expiration: Time,
    only_update: bool,
    room: bool,
) -> Inserted<V, WG> {
    let present = crate::store::holds(shared.store, h.0, h.1);
    if present && allowed {
        let ticket = InsertTicket { index: h.0, is_update: true };
        let exit = Some(shared.store[h.0].value);
        Inserted {
            shared: SharedView {
                store: shared.store.insert(
                    h.0,
                    StoreItem { key: h.0, conflict: h.1, value: val, expiration },
                ),
                ..shared
            },
            step: if room {
                InsertStep::Send {
                    item: Item::Update {
                        key: h.0,
                        cost,
                        external_cost: if cost == 0 {
                            evaluated
                        } else {
                            0
                        },
                    },
                    ticket,
                    exit,
                }
            } else {
                InsertStep::Unsent { ticket, exit }
            },
        }
    } else if only_update {
        Inserted { shared, step: InsertStep::Dropped }
    } else {
        let ticket = InsertTicket { index: h.0, is_update: false };
        Inserted {
            shared,
            step: if room {
                InsertStep::Send {
                    item: Item::New {
                        key: h.0,
                        conflict: h.1,
                        cost: if cost == 0 {
                            evaluated
                        } else {
                            cost
                        },
                        value: val,
                        expiration,
                    },
                    ticket,
                    exit: None,
                }
            } else {
                InsertStep::Unsent { ticket, exit: None }
            },
        }
    }
}

/// What a removal does next.
pub enum RemoveStep<V, WG> {
    /// Is over.
    Done,
    /// Tells the callback of the value that was removed, and sends the message,
    /// waiting for room in the insert buffer where there is none.
    Send { item: Item<V, WG>, exit: Option<V> },
}

/// The shared state after the first half of a removal, and what it does next.
#[verifier::reject_recursive_types(V)]
pub struct Removed<V, WG> {
    pub shared: SharedView<V>,
    pub step: RemoveStep<V, WG>,
}

/// The first half of a removal under the hashes `h` from an open cache.
pub open spec fn removed<V, WG>(shared: SharedView<V>, h: (u64, u64)) -> Removed<V, WG> {
    Removed {
        shared: SharedView {
            store: crate::store::without(shared.store, h.0, h.1),
            ..shared
        },
        step: RemoveStep::Send {
            item: Item::Delete { key: h.0, conflict: h.1 },
            exit: if crate::store::holds(shared.store, h.0, h.1) {
                Some(shared.store[h.0].value)
            } else {
                None
            },
        },
    }
}

/// What moves the closing of a cache on.
pub enum CloseEvent {
    /// The caller wants the cache closed.
    Start,
    /// The working task was asked to clear out the insert buffer.
    ClearAsked(Result<(), CacheError>),
    /// The stop signal was sent, or could not be for the given reason.
    StopSent(Result<(), String>),
    /// The policy was closed.
    PolicyClosed(Result<(), CacheError>),
}

/// What closing a cache does next.
pub enum CloseStep {
    /// Asks the working task to clear out the insert buffer.
    AskClear,
    /// Sends the stop signal to the working task.
    SendStop,
    /// Closes the policy.
    ClosePolicy,
    /// Is over.
    Done,
}

/// Whether a cache is closed, and what it holds, after an event of its closing.
pub open spec fn closing<V>(is_closed: bool, shared: SharedView<V>, event: CloseEvent) -> (
    bool,
    SharedView<V>,
) {
    match event {
        CloseEvent::ClearAsked(Ok(_)) => (is_closed, shared.cleared()),
        CloseEvent::PolicyClosed(Ok(_)) => (true, shared),
        _ => (is_closed, shared),
    }
}

impl<K, V, KH, C, U, CB, S> AsyncCache<K, V, KH, C, U, CB, S> where
    K: Hash + Eq,
    V: Send + Sync + 'static,
    KH: KeyBuilder<K>,
    C: Coster<V>,
    U: UpdateValidator<V>,
    S: BuildHasher + Clone,
 {
    /// The shared state is well-formed.
    pub open spec fn wf(&self) -> bool {
        self.shared.wf()
    }

    /// What no operation changes.
    pub open spec fn same_parts(&self, other: &Self) -> bool {
        &&& self.callback == other.callback
        &&& self.key_to_hash == other.key_to_hash
        &&& self.coster == other.coster
        &&& self.shared.same_parts(&other.shared)
    }

    /// An open cache on this state.
    pub fn new(shared: Shared<V, U, S>, callback: CB, key_to_hash: KH, coster: C) -> (r: Self)
        ensures
            r.shared == shared,
            r.callback == callback,
            r.key_to_hash == key_to_hash,
            r.coster == coster,
            !r.is_closed,
    {
        AsyncCache { shared, callback, key_to_hash, coster, is_closed: false, marker: PhantomData }
    }

    /// The first half of an insert under given hashes, with the answers of the
    /// coster and the validator given.
    pub fn insert_hashed<WG>(
        &mut self,
        h: (u64, u64),
        val: V,
        cost: i64,
        evaluated: i64,
        allowed: bool,
        expiration: Time,
        only_update: bool,
        room: bool,
    ) -> (r: InsertStep<V, WG>)
        requires
            old(self).wf(),
        ensures
            final(self).wf(),
            final(self).same_parts(old(self)),
            final(self).is_closed == old(self).is_closed,
            if old(self).is_closed {
                final(self).shared@ == old(self).shared@ && r is Dropped
            } else {
                let i = inserted::<V, WG>(
                    old(self).shared@,
                    h,
                    val,
                    cost,
                    evaluated,
                    allowed,
                    expiration,
                    only_update,
                    room,
                );
                final(self).shared@ == i.shared && r == i.step
            },
    {
        if self.is_closed {
            return InsertStep::Dropped;
        }
        let (index, conflict): (u64, u64) = h;
        match self.shared.store.try_update(index, val, conflict, expiration, allowed) {
            UpdateResult::Update(prev) => {
                let ticket = InsertTicket { index, is_update: true };
                let exit = Some(prev);
                if !room {
                    return InsertStep::Unsent { ticket, exit };
                }
                let external_cost: i64 = if cost == 0 {
                    evaluated
                } else {
                    0
                };
                InsertStep::Send { item: Item::update(index, cost, external_cost), ticket, exit }
            },
            UpdateResult::NotExist(v) | UpdateResult::Conflict(v) | UpdateResult::Reject(v) => {
                if only_update {
                    return InsertStep::Dropped;
                }
                let ticket = InsertTicket { index, is_update: false };
                if !room {
                    return InsertStep::Unsent { ticket, exit: None };
                }
                let item_cost: i64 = if cost == 0 {
                    evaluated
                } else {
                    cost
                };
                InsertStep::Send {
                    item: Item::new(index, conflict, item_cost, v, expiration),
                    ticket,
                    exit: None,
                }
            },
        }
    }

    /// The answers that the parts of the cache could give when asked about an
    /// insert: `h` of the hashing of keys; where the key is in the store, `allowed`
    /// of the validator; where the cost is zero and a message is to be sent,
    /// `evaluated` of the coster. A message is sent where there is room for it and
    /// the insert is not dropped for being an update only.
    pub open spec fn answers(
        &self,
        key: K,
        val: V,
        cost: i64,
        only_update: bool,
        room: bool,
        h: (u64, u64),
        evaluated: i64,
        allowed: bool,
    ) -> bool {
        let present = crate::store::holds(self.shared@.store, h.0, h.1);
        &&& call_ensures(KH::build_key, (&self.key_to_hash, &key), h)
        &&& present ==> call_ensures(
            U::should_update,
            (&self.shared.validator(), &self.shared@.store[h.0].value, &val),
            allowed,
        )
        &&& cost == 0 && room && (present && allowed || !only_update) ==> call_ensures(
            C::cost,
            (&self.coster, &val),
            evaluated,
        )
    }

    /// What the first half of an insert comes to: nothing where the cache is
    /// closed, and otherwise what the answers of its parts lead to.
    pub open spec fn insert_leads_to<WG>(
        &self,
        key: K,
        val: V,
        cost: i64,
        expiration: Time,
        only_update: bool,
        room: bool,
        shared: SharedView<V>,
        step: InsertStep<V, WG>,
    ) -> bool {
        if self.is_closed {
            shared == self.shared@ && step is Dropped
        } else {
            exists|h: (u64, u64), evaluated: i64, allowed: bool|
                {
                    let i = inserted::<V, WG>(
                        self.shared@,
                        h,
                        val,
                        cost,
                        evaluated,
                        allowed,
                        expiration,
                        only_update,
                        room,
                    );
                    &&& #[trigger] self.answers(
                        key,
                        val,
                        cost,
                        only_update,
                        room,
                        h,
                        evaluated,
                        allowed,
                    )
                    &&& shared == i.shared
                    &&& step == i.step
                }
        }
    }

    /// The first half of an insert of a value that lives for `ttl` nanoseconds,
    /// or forever where that is zero. `room` says whether a place in the insert
    /// buffer is reserved for the message. The coster is asked only where a message
    /// is to be sent: never about an insert that is dropped.
    pub fn try_insert_in<WG>(
        &mut self,
        key: K,
        val: V,
        cost: i64,
        ttl: u128,
        only_update: bool,
        room: bool,
        now: u128,
    ) -> (r: Result<InsertStep<V, WG>, CacheError>)
        requires
            old(self).wf(),
        ensures
            final(self).wf(),
            final(self).same_parts(old(self)),
            final(self).is_closed == old(self).is_closed,
            r matches Ok(step) && old(self).insert_leads_to(
                key,
                val,
                cost,
                (Time { created_at: now, ttl }),
                only_update,
                room,
                final(self).shared@,
                step,
            ),
    {
        if self.is_closed {
            return Ok(InsertStep::Dropped);
        }
        let h: (u64, u64) = self.key_to_hash.build_key(&key);
        let allowed = self.shared.store.allows(h.0, h.1, &val);
        let evaluated: i64 = if cost == 0 && room && (allowed || !only_update) {
            self.coster.cost(&val)
        } else {
            0
        };
        assert(self.answers(key, val, cost, only_update, room, h, evaluated, allowed));
        Ok(
            self.insert_hashed(
                h,
                val,
                cost,
                evaluated,
                allowed,
                Time::new(now, ttl),
                only_update,
                room,
            ),
        )
    }

    /// Attempts to add the item to the cache. Where the step is `Dropped`, or the
    /// second half answers `false`, the item is not added. Otherwise the policy
    /// can still turn it away; if it does not, other items make room for it.
    ///
    /// `room` says whether a place in the insert buffer is reserved for the message.
    /// A cost of zero has the coster evaluate the item, unless it is dropped.
    pub fn insert<WG>(
        &mut self,
        key: K,
        val: V,
        cost: i64,
        room: bool,
        now: u128,
    ) -> (r: InsertStep<V, WG>)
        requires
            old(self).wf(),
        ensures
            final(self).wf(),
            final(self).same_parts(old(self)),
            final(self).is_closed == old(self).is_closed,
            old(self).insert_leads_to(
                key,
                val,
                cost,
                (Time { created_at: now, ttl: 0 }),
                false,
                room,
                final(self).shared@,
                r,
            ),
    {
        self.insert_with_ttl(key, val, cost, 0, room, now)
    }

    /// `insert` for callers that handle errors.
    pub fn try_insert<WG>(
        &mut self,
        key: K,
        val: V,
        cost: i64,
        room: bool,
        now: u128,
    ) -> (r: Result<InsertStep<V, WG>, CacheError>)
        requires
            old(self).wf(),
        ensures
            final(self).wf(),
            final(self).same_parts(old(self)),
            final(self).is_closed == old(self).is_closed,
            r matches Ok(step) && old(self).insert_leads_to(
                key,
                val,
                cost,
                (Time { created_at: now, ttl: 0 }),
                false,
                room,
                final(self).shared@,
                step,
            ),
    {
        self.try_insert_with_ttl(key, val, cost, 0, room, now)
    }

    /// `insert` of an item that expires after `ttl` nanoseconds. Zero means that
    /// it never expires.
    pub fn insert_with_ttl<WG>(
        &mut self,
        key: K,
        val: V,
        cost: i64,
        ttl: u128,
        room: bool,
        now: u128,
    ) -> (r: InsertStep<V, WG>)
        requires
            old(self).wf(),
        ensures
            final(self).wf(),
            final(self).same_parts(old(self)),
            final(self).is_closed == old(self).is_closed,
            old(self).insert_leads_to(
                key,
                val,
                cost,
                (Time { created_at: now, ttl }),
                false,
                room,
                final(self).shared@,
                r,
            ),
    {
        let r = self.try_insert_in(key, val, cost, ttl, false, room, now);
        r.unwrap()
    }

    /// `insert_with_ttl` for callers that handle errors.
    pub fn try_insert_with_ttl<WG>(
        &mut self,
        key: K,
        val: V,
        cost: i64,
        ttl: u128,
        room: bool,
        now: u128,
    ) -> (r: Result<InsertStep<V, WG>, CacheError>)
        requires
            old(self).wf(),
        ensures
            final(self).wf(),
            final(self).same_parts(old(self)),
            final(self).is_closed == old(self).is_closed,
            r matches Ok(step) && old(self).insert_leads_to(
                key,
                val,
                cost,
                (Time { created_at: now, ttl }),
                false,
                room,
                final(self).shared@,
                step,
            ),
    {
        self.try_insert_in(key, val, cost, ttl, false, room, now)
    }

    /// `insert` that only updates the value of a key that is in the cache. It
    /// never adds a key.
    pub fn insert_if_present<WG>(
        &mut self,
        key: K,
        val: V,
        cost: i64,
        room: bool,
        now: u128,
    ) -> (r: InsertStep<V, WG>)
        requires
            old(self).wf(),
        ensures
            final(self).wf(),
            final(self).same_parts(old(self)),
            final(self).is_closed == old(self).is_closed,
            old(self).insert_leads_to(
                key,
                val,
                cost,
                (Time { created_at: now, ttl: 0 }),
                true,
                room,
                final(self).shared@,
                r,
            ),
            final(self).shared@.store.dom() == old(self).shared@.store.dom(),
            r matches InsertStep::Send { item, .. } ==> item is Update,
    {
        let r = self.try_insert_in(key, val, cost, 0, true, room, now);
        let r = r.unwrap();
        assert(self.shared@.store.dom() =~= old(self).shared@.store.dom());
        r
    }

    /// `insert_if_present` for callers that handle errors.
    pub fn try_insert_if_present<WG>(
        &mut self,
        key: K,
        val: V,
        cost: i64,
        room: bool,
        now: u128,
    ) -> (r: Result<InsertStep<V, WG>, CacheError>)
        requires
            old(self).wf(),
        ensures
            final(self).wf(),
            final(self).same_parts(old(self)),
            final(self).is_closed == old(self).is_closed,
            r matches Ok(step) && old(self).insert_leads_to(
                key,
                val,
                cost,
                (Time { created_at: now, ttl: 0 }),
                true,
                room,
                final(self).shared@,
                step,
            ),
            final(self).shared@.store.dom() == old(self).shared@.store.dom(),
            r matches Ok(InsertStep::Send { item, .. }) ==> item is Update,
    {
        let r = self.try_insert_in(key, val, cost, 0, true, room, now);
        assert(self.shared@.store.dom() =~= old(self).shared@.store.dom());
        r
    }

    /// The second half of an insert: its answer, where `accepted` says whether
    /// the message reached the insert buffer.
    ///
    /// An update answers `true` in any case, for the store holds its value
    /// already. Any other insert that did not reach the buffer is counted as
    /// dropped, under the index hash of its key.
    pub fn finish_insert(&mut self, ticket: InsertTicket, accepted: bool) -> (r: bool)
        requires
            old(self).wf(),
        ensures
            final(self).wf(),
            final(self).same_parts(old(self)),
            final(self).is_closed == old(self).is_closed,
            r == (accepted || ticket.is_update),
            final(self).shared@ == (if r {
                old(self).shared@
            } else {
                old(self).shared@.one_dropped(ticket.index)
            }),
    {
        if accepted || ticket.is_update {
            true
        } else {
            self.shared.metrics.add(MetricType::DropSets, ticket.index, 1);
            false
        }
    }

    /// The first half of a removal under given hashes: the entry leaves the store
    /// at once, and its deletion is to be sent, so that an insert that is still
    /// under way is deleted too.
    pub fn remove_hashed<WG>(&mut self, h: (u64, u64)) -> (r: RemoveStep<V, WG>)
        requires
            old(self).wf(),
        ensures
            final(self).wf(),
            final(self).same_parts(old(self)),
            final(self).is_closed == old(self).is_closed,
            if old(self).is_closed {
                final(self).shared@ == old(self).shared@ && r is Done
            } else {
                let rm = removed::<V, WG>(old(self).shared@, h);
                final(self).shared@ == rm.shared && r == rm.step
            },
    {
        if self.is_closed {
            return RemoveStep::Done;
        }
        let exit = match self.shared.store.remove(h.0, h.1) {
            Some(prev) => Some(prev.value),
            None => None,
        };
        RemoveStep::Send { item: Item::delete(h.0, h.1), exit }
    }

    /// What the first half of a removal comes to.
    pub open spec fn remove_leads_to<WG>(
        &self,
        key: K,
        shared: SharedView<V>,
        step: RemoveStep<V, WG>,
    ) -> bool {
        if self.is_closed {
            shared == self.shared@ && step is Done
        } else {
            exists|h: (u64, u64)|
                {
                    &&& #[trigger] call_ensures(KH::build_key, (&self.key_to_hash, &key), h)
                    &&& shared == removed::<V, WG>(self.shared@, h).shared
                    &&& step == removed::<V, WG>(self.shared@, h).step
                }
        }
    }

    /// Tries to remove an entry by key. Whatever becomes of the message, the
    /// removal succeeds.
    pub fn try_remove<WG>(&mut self, k: &K) -> (r: Result<RemoveStep<V, WG>, CacheError>)
        requires
            old(self).wf(),
        ensures
            final(self).wf(),
            final(self).same_parts(old(self)),
            final(self).is_closed == old(self).is_closed,
            r matches Ok(step) && old(self).remove_leads_to(*k, final(self).shared@, step),
    {
        if self.is_closed {
            return Ok(RemoveStep::Done);
        }
        let h: (u64, u64) = self.key_to_hash.build_key(k);
        Ok(self.remove_hashed(h))
    }

    /// Removes an entry by key.
    pub fn remove<WG>(&mut self, k: &K) -> (r: RemoveStep<V, WG>)
        requires
            old(self).wf(),
        ensures
            final(self).wf(),
            final(self).same_parts(old(self)),
            final(self).is_closed == old(self).is_closed,
            old(self).remove_leads_to(*k, final(self).shared@, r),
    {
        let r = self.try_remove(k);
        r.unwrap()
    }

    /// The first half of waiting until the previous operations finished: the
    /// message to send, or nothing where the cache is closed and the wait is over.
    pub fn wait<WG>(&self, wg: WG) -> (r: Option<Item<V, WG>>)
        ensures
            r == (if self.is_closed {
                None
            } else {
                Some(Item::<V, WG>::Wait(wg))
            }),
    {
        if self.is_closed {
            None
        } else {
            Some(Item::Wait(wg))
        }
    }

    /// The second half of waiting: where the message was sent, the caller waits
    /// until the working task wakes it; where it was not, for the reason `sent`
    /// gives, the wait fails.
    pub fn wait_sent(&self, sent: Result<(), String>) -> (r: Result<(), CacheError>)
        ensures
            match sent {
                Ok(_) => r is Ok,
                Err(reason) => {
                    &&& r matches Err(CacheError::SendError(text))
                    &&& text@ == "cache set buf sender: "@ + reason@
                },
            },
    {
        match sent {
            Ok(_) => Ok(()),
            Err(reason) => Err(
                CacheError::SendError(prefixed("cache set buf sender: ", reason.as_str())),
            ),
        }
    }

    /// What asking the working task to clear out the insert buffer came to, where
    /// `sent` says why the signal could not be sent.
    pub fn clear_sent(&self, sent: Result<(), String>) -> (r: Result<(), CacheError>)
        ensures
            match sent {
                Ok(_) => r is Ok,
                Err(reason) => {
                    &&& r matches Err(CacheError::SendError(text))
                    &&& text@ == "fail to send clear signal to working thread, "@ + reason@
                },
            },
    {
        match sent {
            Ok(_) => Ok(()),
            Err(reason) => Err(
                CacheError::SendError(
                    prefixed("fail to send clear signal to working thread, ", reason.as_str()),
                ),
            ),
        }
    }

    /// Takes the closing of the cache from one event to the next action. The
    /// cache is closed once its policy is; a failure before that leaves it open.
    pub fn close(&mut self, event: CloseEvent) -> (r: Result<CloseStep, CacheError>)
        requires
            old(self).wf(),
        ensures
            final(self).wf(),
            final(self).same_parts(old(self)),
            (final(self).is_closed, final(self).shared@) == closing(
                old(self).is_closed,
                old(self).shared@,
                event,
            ),
            match event {
                CloseEvent::Start => r == Ok::<CloseStep, CacheError>(
                    if old(self).is_closed {
                        CloseStep::Done
                    } else {
                        CloseStep::AskClear
                    },
                ),
                CloseEvent::ClearAsked(Ok(_)) => r == Ok::<CloseStep, CacheError>(
                    CloseStep::SendStop,
                ),
                CloseEvent::ClearAsked(Err(e)) => r == Err::<CloseStep, CacheError>(e),
                CloseEvent::StopSent(Ok(_)) => r == Ok::<CloseStep, CacheError>(
                    CloseStep::ClosePolicy,
                ),
                CloseEvent::StopSent(Err(reason)) => {
                    &&& r matches Err(CacheError::SendError(text))
                    &&& text@ == "fail to send stop signal to working thread, "@ + reason@
                },
                CloseEvent::PolicyClosed(Ok(_)) => r == Ok::<CloseStep, CacheError>(
                    CloseStep::Done,
                ),
                CloseEvent::PolicyClosed(Err(e)) => r == Err::<CloseStep, CacheError>(e),
            },
    {
        match event {
            CloseEvent::Start => {
                if self.is_closed {
                    Ok(CloseStep::Done)
                } else {
                    Ok(CloseStep::AskClear)
                }
            },
            CloseEvent::ClearAsked(Ok(_)) => {
                self.shared.clear();
                Ok(CloseStep::SendStop)
            },
            CloseEvent::ClearAsked(Err(e)) => Err(e),
            CloseEvent::StopSent(Ok(_)) => Ok(CloseStep::ClosePolicy),
            CloseEvent::StopSent(Err(reason)) => Err(
                CacheError::SendError(
                    prefixed("fail to send stop signal to working thread, ", reason.as_str()),
                ),
            ),
            CloseEvent::PolicyClosed(Ok(_)) => {
                self.is_closed = true;
                Ok(CloseStep::Done)
            },
            CloseEvent::PolicyClosed(Err(e)) => Err(e),
        }
    }

    /// The value under given hashes, unless nothing is stored under them, the value
    /// is expired, or the cache is closed.
    pub fn get_hashed(&self, h: (u64, u64), now: u128) -> (r: Option<&V>)
        requires
            self.wf(),
        ensures
            ({
                let found = if self.is_closed {
                    None
                } else {
                    crate::store::lookup(self.shared@.store, h.0, h.1, now)
                };
                match r {
                    Some(v) => found == Some(*v),
                    None => found is None,
                }
            }),
    {
        if self.is_closed {
            return None;
        }
        self.shared.store.get(h.0, h.1, now)
    }

    /// The value under a key, unless the key is absent, its value is expired, or
    /// the cache is closed.
    pub fn get(&self, key: &K, now: u128) -> (r: Option<&V>)
        requires
            self.wf(),
        ensures
            if self.is_closed {
                r is None
            } else {
                exists|h: (u64, u64)|
                    {
                        let found = crate::store::lookup(self.shared@.store, h.0, h.1, now);
                        &&& #[trigger] call_ensures(KH::build_key, (&self.key_to_hash, key), h)
                        &&& match r {
                            Some(v) => found == Some(*v),
                            None => found is None,
                        }
                    }
            },
    {
        if self.is_closed {
            return None;
        }
        let h: (u64, u64) = self.key_to_hash.build_key(key);
        self.get_hashed(h, now)
    }
}

} // verus!
