//! Shared snapshots and the locks that guard them.
//!
//! A variable's value is published as an immutable, reference-counted,
//! type-erased snapshot. Two snapshots are the same exactly when they are the
//! same allocation, which is what the commit-time consistency checks compare.
use std::any::Any;
use std::sync::Arc;

use parking_lot::lock_api;
use vstd::prelude::*;

use crate::tvar::VarControlBlock;

verus! {

#[verifier::external_type_specification]
#[verifier::external_body]
pub struct ExRawRwLock(parking_lot::RawRwLock);

#[verifier::external_type_specification]
#[verifier::external_body]
#[verifier::reject_recursive_types(R)]
#[verifier::reject_recursive_types(T)]
pub struct ExRwLock<R, T: ?Sized>(lock_api::RwLock<R, T>);

/// An immutable snapshot of a variable's value.
///
/// Equality of snapshots is identity of the shared allocation: a snapshot and
/// its `share` are equal, two snapshots made by separate `new` calls are not
/// known to be.
#[verifier::external_body]
pub struct Payload {
    inner: Arc<dyn Any + Send + Sync>,
}

impl Payload {
    /// Relies on `Arc::new`: a fresh shared snapshot holding `value`.
    #[verifier::external_body]
    pub(crate) fn new<T: Any + Send + Sync>(value: T) -> Payload {
        Payload { inner: Arc::new(value) }
    }

    /// Relies on `Arc::clone`: a second handle to the same allocation.
    #[verifier::external_body]
    pub fn share(&self) -> (r: Payload)
        ensures
            r == *self,
    {
        Payload { inner: Arc::clone(&self.inner) }
    }

    /// Relies on `Arc::ptr_eq`: whether both handles point to one allocation.
    #[verifier::external_body]
    pub fn same(&self, other: &Payload) -> (r: bool)
        ensures
            r == (*self == *other),
    {
        Arc::ptr_eq(&self.inner, &other.inner)
    }

    /// Relies on `<dyn Any>::downcast_ref`: a clone of the value the snapshot
    /// holds if it is a `T`, `None` otherwise.
    #[verifier::external_body]
    pub(crate) fn value<T: Any + Clone>(&self) -> Option<T> {
        self.inner.downcast_ref::<T>().cloned()
    }
}

/// Relies on `parking_lot::RwLock::new`: a lock holding `snapshot`.
#[verifier::external_body]
pub(crate) fn new_slot(snapshot: Payload) -> Arc<parking_lot::RwLock<Payload>> {
    Arc::new(parking_lot::RwLock::new(snapshot))
}

/// Relies on `parking_lot::RwLock::read`: the snapshot the slot holds now,
/// read under a short shared lock. Other threads may replace it at any time,
/// so nothing is promised of which one it is.
#[verifier::external_body]
pub(crate) fn load(slot: &parking_lot::RwLock<Payload>) -> Payload {
    slot.read().share()
}

/// The locks that one commit holds.
///
/// Guards taken by `lock_read` are released together by `release_reads`;
/// guards taken by `lock_write` are released by `release`, after `store` has
/// replaced their snapshots. The set also keeps, for each lock it took, the
/// cell's identity and the snapshot found under the lock.
#[verifier::external_body]
pub struct LockSet {
    reads: Vec<lock_api::ArcRwLockReadGuard<parking_lot::RawRwLock, Payload>>,
    writes: Vec<(usize, lock_api::ArcRwLockWriteGuard<parking_lot::RawRwLock, Payload>)>,
    taken: Vec<(usize, Payload)>,
}

/// The snapshot under each shared guard the set holds, in the order taken.
pub uninterp spec fn held_reads(s: LockSet) -> Seq<Payload>;

/// For each exclusive guard the set holds, in the order taken: the identity
/// of its cell and the snapshot under it.
pub uninterp spec fn held_writes(s: LockSet) -> Seq<(usize, Payload)>;

/// For each lock the set took, shared or exclusive, in the order taken: the
/// identity of its cell and the snapshot it found; releasing or storing does
/// not change it.
pub uninterp spec fn taken(s: LockSet) -> Seq<(usize, Payload)>;

/// Whether the set took a lock on the cell with identity `key`.
pub open spec fn has_taken(s: LockSet, key: usize) -> bool {
    exists|i: int| 0 <= i < taken(s).len() && taken(s)[i].0 == key
}

impl LockSet {
    /// Relies on `Vec::new`: a set that holds no lock and has taken none.
    #[verifier::external_body]
    pub(crate) fn new() -> (r: LockSet)
        ensures
            held_reads(r) == Seq::<Payload>::empty(),
            held_writes(r) == Seq::<(usize, Payload)>::empty(),
            taken(r) == Seq::<(usize, Payload)>::empty(),
    {
        LockSet { reads: Vec::new(), writes: Vec::new(), taken: Vec::new() }
    }

    /// Relies on `parking_lot::RwLock::read_arc`: blocks until a shared lock
    /// on `cell` is held, keeps it, and returns the snapshot under it. The
    /// set must not have locked `cell` already: a second lock on the same
    /// `RwLock` by this thread may never be granted.
    #[verifier::external_body]
    pub(crate) fn lock_read(&mut self, cell: &VarControlBlock) -> (r: Payload)
        requires
            !has_taken(*old(self), cell.id()),
        ensures
            held_reads(*final(self)) == held_reads(*old(self)).push(r),
            held_writes(*final(self)) == held_writes(*old(self)),
            taken(*final(self)) == taken(*old(self)).push((cell.id(), r)),
    {
        let guard = cell.slot().read_arc();
        let snapshot = guard.share();
        self.taken.push((cell.key(), snapshot.share()));
        self.reads.push(guard);
        snapshot
    }

    /// Relies on `parking_lot::RwLock::write_arc`: blocks until an exclusive
    /// lock on `cell` is held, keeps it, and returns the snapshot under it.
    /// The set must not have locked `cell` already: `write_arc` waits for
    /// every other guard on the lock to go.
    #[verifier::external_body]
    pub(crate) fn lock_write(&mut self, cell: &VarControlBlock) -> (r: Payload)
        requires
            !has_taken(*old(self), cell.id()),
        ensures
            held_reads(*final(self)) == held_reads(*old(self)),
            held_writes(*final(self)) == held_writes(*old(self)).push((cell.id(), r)),
            taken(*final(self)) == taken(*old(self)).push((cell.id(), r)),
    {
        let guard = cell.slot().write_arc();
        let snapshot = guard.share();
        self.taken.push((cell.key(), snapshot.share()));
        self.writes.push((cell.key(), guard));
        snapshot
    }

    /// Relies on `Vec::clear`: drops every shared guard, releasing those locks.
    #[verifier::external_body]
    pub(crate) fn release_reads(&mut self)
        ensures
            held_reads(*final(self)) == Seq::<Payload>::empty(),
            held_writes(*final(self)) == held_writes(*old(self)),
            taken(*final(self)) == taken(*old(self)),
    {
        self.reads.clear();
    }

    /// Relies on `ArcRwLockWriteGuard`'s `DerefMut`: replaces the snapshot
    /// under the `i`-th exclusive guard.
    #[verifier::external_body]
    pub(crate) fn store(&mut self, i: usize, snapshot: Payload)
        requires
            i < held_writes(*old(self)).len(),
        ensures
            held_reads(*final(self)) == held_reads(*old(self)),
            held_writes(*final(self)) == held_writes(*old(self)).update(
                i as int,
                (held_writes(*old(self))[i as int].0, snapshot),
            ),
            taken(*final(self)) == taken(*old(self)),
    {
        *self.writes[i].1 = snapshot;
    }

    /// Relies on the guards' `Drop`: releases every lock still held.
    #[verifier::external_body]
    pub(crate) fn release(self) {
        drop(self.reads);
        drop(self.writes);
    }
}

} // verus!
