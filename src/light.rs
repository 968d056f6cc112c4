//! The signal vocabulary of the lighter engine, where a body's failure is
//! either an explicit retry or an abort carrying the caller's error.
use vstd::prelude::*;

verus! {

/// An explicit retry, with a note on why.
#[derive(Eq, PartialEq, Clone, Copy, Debug)]
pub struct RetrySignal(pub(crate) &'static str);

/// An explicit abort, carrying the caller's error.
#[derive(Eq, PartialEq, Clone, Copy, Debug)]
pub struct AbortSignal<E>(pub(crate) E);

/// Error of a single step of a fallible transaction.
#[derive(Eq, PartialEq, Clone, Copy, Debug)]
pub enum StmError<E> {
    /// `retry` was called: block until at least one read variable changed.
    Retry(RetrySignal),
    /// Failed due to manual cancelling.
    Abort(AbortSignal<E>),
}

/// Return type of a body that may retry but not abort.
pub type StmClosureResult<T> = Result<T, RetrySignal>;

/// Return type of a body that may retry and abort with an error.
pub type StmFallibleClosureResult<T, E> = Result<T, StmError<E>>;

impl RetrySignal {
    /// The note the signal carries.
    pub closed spec fn note(self) -> &'static str {
        self.0
    }

    /// A retry signal with the note `reason`.
    pub fn new(reason: &'static str) -> (r: RetrySignal)
        ensures
            r.note() == reason,
    {
        RetrySignal(reason)
    }
}

impl<E> AbortSignal<E> {
    /// The error the signal carries.
    pub closed spec fn error(self) -> E {
        self.0
    }

    /// An abort signal carrying `error`.
    pub fn new(error: E) -> (r: AbortSignal<E>)
        ensures
            r.error() == error,
    {
        AbortSignal(error)
    }

    /// The error carried.
    pub fn into_inner(self) -> (r: E)
        ensures
            r == self.error(),
    {
        self.0
    }
}

} // verus!
