//! Transactional variables and the shared cells behind them.
use std::any::Any;
use std::marker::PhantomData;
use std::sync::Arc;

use vstd::prelude::*;

use crate::control_block::ControlBlock;
use crate::result::{StmClosureResult, StmError};
use crate::shared::{load, new_slot, Payload};
use crate::transaction::Transaction;

verus! {

/// Relies on `parking_lot::Mutex::new`: an empty list of waiters.
#[verifier::external_body]
fn empty_wait_list() -> parking_lot::Mutex<Vec<Arc<ControlBlock>>> {
    parking_lot::Mutex::new(Vec::new())
}

/// Relies on `parking_lot::Mutex::lock`: appends `ctrl` to the waiters.
#[verifier::external_body]
fn enlist(list: &parking_lot::Mutex<Vec<Arc<ControlBlock>>>, ctrl: &Arc<ControlBlock>) {
    list.lock().push(Arc::clone(ctrl));
}

/// Relies on `parking_lot::Mutex::lock`: empties the waiters and returns them.
#[verifier::external_body]
fn take_all(list: &parking_lot::Mutex<Vec<Arc<ControlBlock>>>) -> Vec<Arc<ControlBlock>> {
    std::mem::take(&mut *list.lock())
}

/// Relies on `parking_lot::Mutex::lock` and `Vec::retain`: keeps, under the
/// list's lock, the waiters that `keep_waiter` chooses.
#[verifier::external_body]
fn retain_waiters(list: &parking_lot::Mutex<Vec<Arc<ControlBlock>>>) {
    list.lock().retain(|ctrl| keep_waiter(ctrl));
}

/// Whether a registered wait handle stays on a cell's list: only while
/// nobody has woken it.
fn keep_waiter(ctrl: &Arc<ControlBlock>) -> bool {
    ctrl.is_live()
}

/// Relies on `Arc::as_ptr`: the address of a cell's lock, which identifies
/// the cell for as long as any handle to it lives.
#[verifier::external_body]
fn address_of(slot: &Arc<parking_lot::RwLock<Payload>>) -> usize {
    Arc::as_ptr(slot) as usize
}

/// The shared cell behind a `TVar`: the current snapshot under a
/// reader-writer lock, and the wait handles of attempts blocked on it.
pub struct VarControlBlock {
    key: usize,
    value: Arc<parking_lot::RwLock<Payload>>,
    waiting: parking_lot::Mutex<Vec<Arc<ControlBlock>>>,
}

impl VarControlBlock {
    /// A new shared cell holding `val`.
    pub fn new<T: Any + Send + Sync>(val: T) -> Arc<VarControlBlock> {
        let value = new_slot(Payload::new(val));
        let key = address_of(&value);
        Arc::new(VarControlBlock { key, value, waiting: empty_wait_list() })
    }

    /// The identity of the cell: the address of its lock, distinct for
    /// distinct live cells; it orders cells at commit.
    pub closed spec fn id(&self) -> usize {
        self.key
    }

    /// The identity of the cell.
    pub fn key(&self) -> (r: usize)
        ensures
            r == self.id(),
    {
        self.key
    }

    /// A second handle to the same cell.
    pub fn share(cell: &Arc<VarControlBlock>) -> (r: Arc<VarControlBlock>)
        ensures
            r.id() == cell.id(),
    {
        Arc::clone(cell)
    }

    /// The lock that guards the cell's snapshot.
    pub fn slot(&self) -> &Arc<parking_lot::RwLock<Payload>> {
        &self.value
    }

    /// The snapshot the cell holds now.
    pub fn snapshot(&self) -> Payload {
        load(&self.value)
    }

    /// Register `ctrl` to be woken on the next commit that writes this cell.
    pub fn wait(&self, ctrl: &Arc<ControlBlock>) {
        enlist(&self.waiting, ctrl);
    }

    /// Forget the wait handles that were already woken.
    pub fn set_dead(&self) {
        retain_waiters(&self.waiting);
    }

    /// Wake every attempt blocked on this cell.
    pub fn wake_all(&self) {
        let waiters = take_all(&self.waiting);
        let mut i: usize = 0;
        while i < waiters.len()
            invariant
                i <= waiters.len(),
            decreases waiters.len() - i,
        {
            waiters[i].set_changed();
            i = i + 1;
        }
    }
}

/// A variable that can be used in a transaction.
///
/// Clones share the cell: they denote the same variable.
pub struct TVar<T> {
    control_block: Arc<VarControlBlock>,
    _marker: PhantomData<T>,
}

impl<T> Clone for TVar<T> {
    fn clone(&self) -> (r: TVar<T>)
        ensures
            r.id() == self.id(),
    {
        TVar { control_block: VarControlBlock::share(&self.control_block), _marker: PhantomData }
    }
}

impl<T> TVar<T> {
    /// The identity of the variable's cell, which orders cells at commit.
    pub closed spec fn id(&self) -> usize {
        self.control_block.id()
    }

    /// The identity of the variable's cell.
    pub fn key(&self) -> (r: usize)
        ensures
            r == self.id(),
    {
        self.control_block.key()
    }

    /// Whether two handles denote the same variable.
    pub fn ref_eq(this: &TVar<T>, other: &TVar<T>) -> (r: bool)
        ensures
            r == (this.id() == other.id()),
    {
        this.control_block.key() == other.control_block.key()
    }

    /// The shared cell of the variable.
    pub fn control_block(&self) -> (r: &Arc<VarControlBlock>)
        ensures
            r.id() == self.id(),
    {
        &self.control_block
    }
}

impl<T: Any + Send + Sync + Clone> TVar<T> {
    /// Create a new variable holding `val`.
    pub fn new(val: T) -> TVar<T> {
        TVar { control_block: VarControlBlock::new(val), _marker: PhantomData }
    }

    /// Read the current value outside of any transaction; `None` only if the
    /// cell holds no `T`, which `TVar<T>` never makes.
    pub fn read_atomic(&self) -> Option<T> {
        self.read_ref_atomic().value::<T>()
    }

    /// The current snapshot, without cloning the value inside.
    pub fn read_ref_atomic(&self) -> Payload {
        self.control_block.snapshot()
    }

    /// Read the variable within `transaction`; see `Transaction::read`.
    pub fn read(&self, transaction: &mut Transaction) -> (r: StmClosureResult<T>)
        ensures
            r is Ok || r == Err::<T, StmError>(StmError::Failure),
            final(transaction)@ == Transaction::read_log(old(transaction)@, self.id(),
                final(transaction)@[self.id()].current()),
    {
        transaction.read(self)
    }

    /// Write the variable within `transaction`; see `Transaction::write`.
    pub fn write(&self, transaction: &mut Transaction, value: T) -> (r: StmClosureResult<()>)
        ensures
            r is Ok,
            final(transaction)@.contains_key(self.id()),
            final(transaction)@[self.id()].written() is Some,
            final(transaction)@ == Transaction::write_log(old(transaction)@, self.id(),
                final(transaction)@[self.id()].written().unwrap()),
    {
        transaction.write(self, value)
    }

    /// Replace the value with `f` of it: a read, then a write.
    pub fn modify<F: FnOnce(T) -> T>(&self, transaction: &mut Transaction, f: F) -> (r: StmClosureResult<()>)
        requires
            forall|x: T| f.requires((x,)),
        ensures
            r is Ok || r == Err::<(), StmError>(StmError::Failure),
            r is Ok ==> final(transaction)@[self.id()].written() is Some,
            r is Ok ==> exists|read: Payload|
                final(transaction)@ == Transaction::write_log(
                    Transaction::read_log(old(transaction)@, self.id(), read),
                    self.id(),
                    final(transaction)@[self.id()].written().unwrap(),
                ),
    {
        let ghost before = transaction@;
        let old_value = match self.read(transaction) {
            Ok(v) => v,
            Err(e) => {
                return Err(e);
            },
        };
        let ghost middle = transaction@;
        let r = self.write(transaction, f(old_value));
        assert(middle == Transaction::read_log(before, self.id(), middle[self.id()].current()));
        r
    }

    /// Write `value` and return the value before: a read, then a write.
    pub fn replace(&self, transaction: &mut Transaction, value: T) -> (r: StmClosureResult<T>)
        ensures
            r is Ok || r == Err::<T, StmError>(StmError::Failure),
            r is Ok ==> final(transaction)@[self.id()].written() is Some,
            r is Ok ==> exists|read: Payload|
                final(transaction)@ == Transaction::write_log(
                    Transaction::read_log(old(transaction)@, self.id(), read),
                    self.id(),
                    final(transaction)@[self.id()].written().unwrap(),
                ),
    {
        let ghost before = transaction@;
        let old_value = match self.read(transaction) {
            Ok(v) => v,
            Err(e) => {
                return Err(e);
            },
        };
        let ghost middle = transaction@;
        match self.write(transaction, value) {
            Ok(()) => {},
            Err(e) => {
                return Err(e);
            },
        }
        assert(middle == Transaction::read_log(before, self.id(), middle[self.id()].current()));
        Ok(old_value)
    }
}

} // verus!
