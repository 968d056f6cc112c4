use vstd::prelude::*;

verus! {

/// Error of a single step of a transaction.
#[derive(Eq, PartialEq, Clone, Copy, Debug, Structural)]
pub enum StmError {
    /// The call failed, because a variable the computation depends on has changed.
    Failure,
    /// `retry` was called: block until at least one read variable has changed.
    Retry,
}

/// Return type of a transaction body.
pub type StmClosureResult<T> = Result<T, StmError>;

/// Error of a single step of a fallible transaction.
#[derive(Eq, PartialEq, Clone, Copy, Debug)]
pub enum TransactionError<E> {
    /// Failed due to a regular [`StmError`].
    Stm(StmError),
    /// Failed due to manual cancelling (a call to `abort` in the transaction's body).
    Abort(E),
}

/// Return type of a fallible transaction body.
pub type TransactionClosureResult<T, E> = Result<T, TransactionError<E>>;

/// Result of a fallible transaction: validated with a value, cancelled by the
/// body with an error, or given up by the control function.
#[derive(Eq, PartialEq, Clone, Copy, Debug)]
pub enum TransactionResult<T, E> {
    /// Transaction completed successfully.
    Validated(T),
    /// Transaction was manually aborted.
    Cancelled(E),
    /// Transaction was abandoned.
    Failed,
}

/// What a control function asks the driver to do with a failed attempt.
#[derive(Debug, Clone, Copy, PartialEq, Eq, Structural)]
pub enum TransactionControl {
    Retry,
    Abort,
}

impl<T, E> TransactionResult<T, E> {
    /// Returns `true` if the result is `Validated`.
    pub fn is_validated(&self) -> (r: bool)
        ensures
            r == self is Validated,
    {
        match self {
            TransactionResult::Validated(_) => true,
            _ => false,
        }
    }

    /// Returns `true` if the result is `Validated` and the value inside matches `f`.
    pub fn is_validated_and<F: FnOnce(T) -> bool>(self, f: F) -> (r: bool)
        requires
            self matches TransactionResult::Validated(t) ==> f.requires((t,)),
        ensures
            match self {
                TransactionResult::Validated(t) => f.ensures((t,), r),
                _ => !r,
            },
    {
        match self {
            TransactionResult::Validated(t) => f(t),
            TransactionResult::Cancelled(_) | TransactionResult::Failed => false,
        }
    }

    /// Returns `true` if the result is `Cancelled`.
    pub fn is_cancelled(&self) -> (r: bool)
        ensures
            r == self is Cancelled,
    {
        match self {
            TransactionResult::Cancelled(_) => true,
            _ => false,
        }
    }

    /// Returns `true` if the result is `Cancelled` and the error inside matches `f`.
    pub fn is_cancelled_and<F: FnOnce(E) -> bool>(self, f: F) -> (r: bool)
        requires
            self matches TransactionResult::Cancelled(e) ==> f.requires((e,)),
        ensures
            match self {
                TransactionResult::Cancelled(e) => f.ensures((e,), r),
                _ => !r,
            },
    {
        match self {
            TransactionResult::Cancelled(e) => f(e),
            TransactionResult::Validated(_) | TransactionResult::Failed => false,
        }
    }

    /// The validated value, if any.
    pub fn validated(self) -> (r: Option<T>)
        ensures
            match self {
                TransactionResult::Validated(t) => r == Some(t),
                _ => r is None,
            },
    {
        match self {
            TransactionResult::Validated(t) => Some(t),
            TransactionResult::Cancelled(_) | TransactionResult::Failed => None,
        }
    }

    /// The cancellation error, if any.
    pub fn cancelled(self) -> (r: Option<E>)
        ensures
            match self {
                TransactionResult::Cancelled(e) => r == Some(e),
                _ => r is None,
            },
    {
        match self {
            TransactionResult::Cancelled(e) => Some(e),
            TransactionResult::Validated(_) | TransactionResult::Failed => None,
        }
    }

    /// Returns `true` if the result is `Failed`.
    pub fn failed(self) -> (r: bool)
        ensures
            r == self is Failed,
    {
        match self {
            TransactionResult::Failed => true,
            _ => false,
        }
    }

    /// The validated value; only defined on a validated result.
    pub fn expect(self, msg: &str) -> (r: T)
        requires
            self is Validated,
        ensures
            self == TransactionResult::<T, E>::Validated(r),
    {
        match self {
            TransactionResult::Validated(t) => t,
            _ => vstd::pervasive::unreached(),
        }
    }

    /// The cancellation error; only defined on a cancelled result.
    pub fn expect_err(self, msg: &str) -> (r: E)
        requires
            self is Cancelled,
        ensures
            self == TransactionResult::<T, E>::Cancelled(r),
    {
        match self {
            TransactionResult::Cancelled(e) => e,
            _ => vstd::pervasive::unreached(),
        }
    }

    /// The validated value; only defined on a validated result.
    pub fn unwrap(self) -> (r: T)
        requires
            self is Validated,
        ensures
            self == TransactionResult::<T, E>::Validated(r),
    {
        match self {
            TransactionResult::Validated(t) => t,
            _ => vstd::pervasive::unreached(),
        }
    }

    /// The cancellation error; only defined on a cancelled result.
    pub fn unwrap_err(self) -> (r: E)
        requires
            self is Cancelled,
        ensures
            self == TransactionResult::<T, E>::Cancelled(r),
    {
        match self {
            TransactionResult::Cancelled(e) => e,
            _ => vstd::pervasive::unreached(),
        }
    }

    /// The validated value, or `T::default()` otherwise.
    pub fn unwrap_or_default(self) -> (r: T) where T: Default
        ensures
            match self {
                TransactionResult::Validated(t) => r == t,
                _ => T::default.ensures((), r),
            },
    {
        match self {
            TransactionResult::Validated(t) => t,
            TransactionResult::Cancelled(_) | TransactionResult::Failed => T::default(),
        }
    }
}

/// Abort the transaction and pass `e` on as its result.
pub fn abort<T, E>(e: E) -> (r: TransactionClosureResult<T, E>)
    ensures
        r == Err::<T, TransactionError<E>>(TransactionError::Abort(e)),
{
    Err(TransactionError::Abort(e))
}

/// Abort this attempt and run the whole transaction again once a read variable changed.
pub fn retry<T>() -> (r: StmClosureResult<T>)
    ensures
        r == Err::<T, StmError>(StmError::Retry),
{
    Err(StmError::Retry)
}

/// The value inside `option`, or a retry if there is none.
pub fn unwrap_or_retry<T>(option: Option<T>) -> (r: StmClosureResult<T>)
    ensures
        match option {
            Some(x) => r == Ok::<T, StmError>(x),
            None => r == Err::<T, StmError>(StmError::Retry),
        },
{
    match option {
        Some(x) => Ok(x),
        None => retry(),
    }
}

/// Succeed when `cond` holds, retry otherwise.
pub fn guard(cond: bool) -> (r: StmClosureResult<()>)
    ensures
        cond ==> r == Ok::<(), StmError>(()),
        !cond ==> r == Err::<(), StmError>(StmError::Retry),
{
    if cond {
        Ok(())
    } else {
        retry()
    }
}

} // verus!
