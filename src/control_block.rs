//! The wait handle of one blocked transaction attempt.
use parking_lot::lock_api;
use vstd::prelude::*;

verus! {

#[verifier::external_type_specification]
#[verifier::external_body]
pub struct ExRawMutex(parking_lot::RawMutex);

#[verifier::external_type_specification]
#[verifier::external_body]
#[verifier::reject_recursive_types(R)]
#[verifier::reject_recursive_types(T)]
pub struct ExMutex<R, T: ?Sized>(lock_api::Mutex<R, T>);

#[verifier::external_type_specification]
#[verifier::external_body]
pub struct ExCondvar(parking_lot::Condvar);

/// Relies on `parking_lot::Mutex::new`: a flag holding `init`.
#[verifier::external_body]
fn new_flag(init: bool) -> parking_lot::Mutex<bool> {
    parking_lot::Mutex::new(init)
}

/// Relies on `parking_lot::Condvar::new`.
#[verifier::external_body]
fn new_condvar() -> parking_lot::Condvar {
    parking_lot::Condvar::new()
}

/// Whether a waiter whose flag holds `woken` must go on sleeping.
pub fn still_asleep(woken: &mut bool) -> (r: bool)
    ensures
        r == !*old(woken),
        *final(woken) == *old(woken),
{
    !*woken
}

/// A wait handle: lets any thread announce that a variable that a blocked
/// attempt depends on changed, and lets the blocked thread sleep until then.
///
/// It has two states, unwoken and woken, and moves only from the first to the
/// second. The flag and the condition variable share one mutex, so a wakeup
/// that comes before the sleep is never lost.
pub struct ControlBlock {
    woken: parking_lot::Mutex<bool>,
    wake: parking_lot::Condvar,
}

impl ControlBlock {
    /// Relies on `parking_lot::Mutex::lock`: sets the flag to `v` and returns
    /// what it held before, in one critical section.
    #[verifier::external_body]
    fn swap_flag(&self, v: bool) -> bool {
        std::mem::replace(&mut *self.woken.lock(), v)
    }

    /// Relies on `parking_lot::Mutex::lock`: what the flag holds now.
    #[verifier::external_body]
    fn flag(&self) -> bool {
        *self.woken.lock()
    }

    /// Relies on `parking_lot::Condvar::notify_one`: wakes the waiting
    /// thread, if any.
    #[verifier::external_body]
    fn notify(&self) {
        self.wake.notify_one();
    }

    /// Relies on `parking_lot::Condvar::wait_while`: sleeps, releasing the
    /// flag's lock, for as long as `still_asleep` holds of the flag, and
    /// returns the flag as it is under the lock when `wait_while` returns.
    /// The flag's mutex is the only one ever used with this condition
    /// variable.
    #[verifier::external_body]
    fn sleep_while_unwoken(&self) -> (r: bool)
        ensures
            r,
    {
        let mut guard = self.woken.lock();
        self.wake.wait_while(&mut guard, |woken| still_asleep(woken));
        *guard
    }

    /// A fresh, unwoken wait handle.
    pub fn new() -> ControlBlock {
        ControlBlock { woken: new_flag(false), wake: new_condvar() }
    }

    /// Announce a change. Only the call that moves the handle from unwoken
    /// to woken wakes the sleeper; later calls do nothing.
    pub fn set_changed(&self) {
        let was_woken = self.swap_flag(true);
        if !was_woken {
            self.notify();
        }
    }

    /// Block until the handle is woken; returns at once if it already is.
    /// Returns the state found when it stopped waiting: woken.
    pub fn wait(&self) -> (woken: bool)
        ensures
            woken,
    {
        self.sleep_while_unwoken()
    }

    /// Whether nobody has woken this handle yet.
    pub fn is_live(&self) -> bool {
        !self.flag()
    }
}

} // verus!
