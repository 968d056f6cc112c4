//! The state of one variable within one transaction attempt.
use vstd::prelude::*;

use crate::shared::Payload;

verus! {

/// What a transaction attempt has done with one variable.
pub enum LogVar {
    /// Read once, not written.
    Read(Payload),
    /// Written with no dependency on the value before.
    Write(Payload),
    /// `ReadWrite(original, written)`: read, then written; the original is
    /// checked for consistency at commit.
    ReadWrite(Payload, Payload),
    /// Read on a branch that `or` discarded: kept for blocking only.
    ReadObsolete(Payload),
    /// `ReadObsoleteWrite(original, written)`: read on a discarded branch,
    /// then written on the surviving one.
    ReadObsoleteWrite(Payload, Payload),
}

impl LogVar {
    /// The value a read in this state returns: the last written value, or
    /// else the value read.
    pub open spec fn current(self) -> Payload {
        match self {
            LogVar::Read(v) => v,
            LogVar::Write(w) => w,
            LogVar::ReadWrite(_, w) => w,
            LogVar::ReadObsolete(v) => v,
            LogVar::ReadObsoleteWrite(_, w) => w,
        }
    }

    /// The state after a read: a read on a discarded branch becomes a real one.
    pub open spec fn after_read(self) -> LogVar {
        match self {
            LogVar::ReadObsolete(v) => LogVar::Read(v),
            LogVar::ReadObsoleteWrite(r, w) => LogVar::ReadWrite(r, w),
            _ => self,
        }
    }

    /// The state after writing `w`.
    pub open spec fn after_write(self, w: Payload) -> LogVar {
        match self {
            LogVar::Write(_) => LogVar::Write(w),
            LogVar::ReadObsolete(r) => LogVar::ReadObsoleteWrite(r, w),
            LogVar::ReadObsoleteWrite(r, _) => LogVar::ReadObsoleteWrite(r, w),
            LogVar::Read(r) => LogVar::ReadWrite(r, w),
            LogVar::ReadWrite(r, _) => LogVar::ReadWrite(r, w),
        }
    }

    /// The snapshot originally read, if the variable was read at all.
    pub open spec fn original(self) -> Option<Payload> {
        match self {
            LogVar::Read(v) => Some(v),
            LogVar::ReadWrite(v, _) => Some(v),
            LogVar::ReadObsolete(v) => Some(v),
            LogVar::ReadObsoleteWrite(v, _) => Some(v),
            LogVar::Write(_) => None,
        }
    }

    /// The value to publish at commit, if the variable was written.
    pub open spec fn written(self) -> Option<Payload> {
        match self {
            LogVar::Write(w) => Some(w),
            LogVar::ReadWrite(_, w) => Some(w),
            LogVar::ReadObsoleteWrite(_, w) => Some(w),
            _ => None,
        }
    }

    /// Whether commit must check that the original is still the live value.
    pub open spec fn checked(self) -> bool {
        self is Read || self is ReadWrite
    }

    /// The obsolete form kept after its branch was discarded.
    pub open spec fn spec_obsolete(self) -> Option<LogVar> {
        match self.original() {
            Some(v) => Some(LogVar::ReadObsolete(v)),
            None => None,
        }
    }

    /// A second handle to the same state.
    pub fn duplicate(&self) -> (r: LogVar)
        ensures
            r == *self,
    {
        match self {
            LogVar::Read(v) => LogVar::Read(v.share()),
            LogVar::Write(w) => LogVar::Write(w.share()),
            LogVar::ReadWrite(v, w) => LogVar::ReadWrite(v.share(), w.share()),
            LogVar::ReadObsolete(v) => LogVar::ReadObsolete(v.share()),
            LogVar::ReadObsoleteWrite(v, w) => LogVar::ReadObsoleteWrite(v.share(), w.share()),
        }
    }

    /// Read a value and possibly upgrade the state.
    pub fn read(&mut self) -> (r: Payload)
        ensures
            r == old(self).current(),
            *final(self) == old(self).after_read(),
    {
        let (val, next) = match &*self {
            LogVar::Read(v) => {
                return v.share();
            },
            LogVar::Write(w) => {
                return w.share();
            },
            LogVar::ReadWrite(_, w) => {
                return w.share();
            },
            LogVar::ReadObsoleteWrite(r, w) => (w.share(), LogVar::ReadWrite(r.share(), w.share())),
            LogVar::ReadObsolete(v) => (v.share(), LogVar::Read(v.share())),
        };
        *self = next;
        val
    }

    /// Write a value and possibly upgrade the state.
    pub fn write(&mut self, w: Payload)
        ensures
            *final(self) == old(self).after_write(w),
    {
        let next = match &*self {
            LogVar::Write(_) => LogVar::Write(w),
            LogVar::ReadObsolete(r) => LogVar::ReadObsoleteWrite(r.share(), w),
            LogVar::ReadObsoleteWrite(r, _) => LogVar::ReadObsoleteWrite(r.share(), w),
            LogVar::Read(r) => LogVar::ReadWrite(r.share(), w),
            LogVar::ReadWrite(r, _) => LogVar::ReadWrite(r.share(), w),
        };
        *self = next;
    }

    /// Turn `self` into its obsolete form; a pure write has none.
    pub fn obsolete(self) -> (r: Option<LogVar>)
        ensures
            r == self.spec_obsolete(),
    {
        match self.into_read_value() {
            Some(v) => Some(LogVar::ReadObsolete(v)),
            None => None,
        }
    }

    /// Ignore any write and get the originally read snapshot.
    pub fn into_read_value(self) -> (r: Option<Payload>)
        ensures
            r == self.original(),
    {
        match self {
            LogVar::Read(v) | LogVar::ReadWrite(v, _) | LogVar::ReadObsolete(v)
            | LogVar::ReadObsoleteWrite(v, _) => Some(v),
            LogVar::Write(_) => None,
        }
    }
}

} // verus!
