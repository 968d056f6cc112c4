//! The transaction log: what one attempt read and wrote, how `or` combines
//! branches, the commit protocol and the wait for a change.
use std::any::Any;
use std::sync::Arc;

use vstd::prelude::*;

use crate::control_block::ControlBlock;
use crate::log_var::LogVar;
use crate::result::{
    StmClosureResult, StmError, TransactionClosureResult, TransactionControl, TransactionError,
};
use crate::shared::{has_taken, held_reads, held_writes, taken, LockSet, Payload};
use crate::tvar::{TVar, VarControlBlock};

verus! {

/// One variable in the log: its identity, its shared cell and its state.
struct Entry {
    key: usize,
    cell: Arc<VarControlBlock>,
    log: LogVar,
}

spec fn has_key(s: Seq<Entry>, k: usize) -> bool {
    exists|i: int| 0 <= i < s.len() && s[i].key == k
}

spec fn index_of(s: Seq<Entry>, k: usize) -> int {
    choose|i: int| 0 <= i < s.len() && s[i].key == k
}

spec fn model(s: Seq<Entry>) -> Map<usize, LogVar> {
    Map::new(|k: usize| has_key(s, k), |k: usize| s[index_of(s, k)].log)
}

spec fn increasing(s: Seq<Entry>) -> bool {
    forall|i: int, j: int| 0 <= i < j < s.len() ==> s[i].key < s[j].key
}

spec fn well_keyed(s: Seq<Entry>) -> bool {
    forall|i: int| 0 <= i < s.len() ==> (#[trigger] s[i]).cell.id() == s[i].key
}

proof fn lemma_index(s: Seq<Entry>, i: int)
    requires
        increasing(s),
        0 <= i < s.len(),
    ensures
        has_key(s, s[i].key),
        index_of(s, s[i].key) == i,
        model(s).contains_key(s[i].key),
        model(s)[s[i].key] == s[i].log,
{
    assert(has_key(s, s[i].key));
    let j = index_of(s, s[i].key);
    assert(0 <= j < s.len() && s[j].key == s[i].key);
    if j < i {
        assert(s[j].key < s[i].key);
    } else if j > i {
        assert(s[i].key < s[j].key);
    }
}

proof fn lemma_update(s: Seq<Entry>, i: int, e: Entry)
    requires
        increasing(s),
        0 <= i < s.len(),
        e.key == s[i].key,
    ensures
        increasing(s.update(i, e)),
        model(s.update(i, e)) == model(s).insert(e.key, e.log),
{
    let t = s.update(i, e);
    assert(increasing(t));
    assert forall|k: usize| has_key(t, k) == has_key(s, k) by {
        if has_key(s, k) {
            let j = index_of(s, k);
            assert(t[j].key == k);
        }
        if has_key(t, k) {
            let j = index_of(t, k);
            assert(s[j].key == k);
        }
    }
    assert forall|k: usize| #[trigger] model(t).contains_key(k) && model(s).contains_key(k) && k
        != e.key implies model(t)[k] == model(s)[k] by {
        let j = index_of(s, k);
        lemma_index(s, j);
        assert(j != i);
        lemma_index(t, j);
    }
    lemma_index(t, i);
    assert(model(t) =~= model(s).insert(e.key, e.log));
}

proof fn lemma_insert(s: Seq<Entry>, i: int, e: Entry)
    requires
        increasing(s),
        0 <= i <= s.len(),
        forall|j: int| 0 <= j < i ==> s[j].key < e.key,
        forall|j: int| i <= j < s.len() ==> e.key < s[j].key,
    ensures
        increasing(s.insert(i, e)),
        model(s.insert(i, e)) == model(s).insert(e.key, e.log),
{
    let t = s.insert(i, e);
    assert forall|a: int, b: int| 0 <= a < b < t.len() implies t[a].key < t[b].key by {
        if b < i {
        } else if b == i {
        } else if a < i {
        } else if a == i {
        } else {
            assert(t[a] == s[a - 1] && t[b] == s[b - 1]);
        }
    }
    assert forall|k: usize| has_key(t, k) == (k == e.key || has_key(s, k)) by {
        if has_key(s, k) {
            let j = index_of(s, k);
            if j < i {
                assert(t[j].key == k);
            } else {
                assert(t[j + 1].key == k);
            }
        }
        if k == e.key {
            assert(t[i].key == k);
        }
        if has_key(t, k) {
            let j = index_of(t, k);
            if j < i {
                assert(s[j].key == k);
            } else if j > i {
                assert(s[j - 1].key == k);
            }
        }
    }
    assert forall|k: usize| #[trigger] model(t).contains_key(k) && model(s).contains_key(k) && k
        != e.key implies model(t)[k] == model(s)[k] by {
        let j = index_of(s, k);
        lemma_index(s, j);
        if j < i {
            lemma_index(t, j);
        } else {
            assert(t[j + 1] == s[j]);
            lemma_index(t, j + 1);
        }
    }
    lemma_index(t, i);
    assert(model(t) =~= model(s).insert(e.key, e.log));
}

/// What one run of a transaction body ended in.
pub enum Attempt<T, E> {
    /// The body succeeded and its writes were committed; with the identity
    /// of each variable commit locked and the snapshot found under the lock.
    Validated(T, Vec<(usize, Payload)>),
    /// The body aborted with an error; nothing was committed.
    Cancelled(E),
    /// The body succeeded but the variable named had changed since it was
    /// read: the live snapshot found under its lock is given. Nothing was
    /// committed and the log was cleared for a rerun.
    Conflict(usize, Payload),
    /// The body stopped with a signal; the control function decides next.
    Signalled(StmError),
}

/// What `settle` did with a signalled attempt.
pub enum Settled {
    /// The control function gave up.
    GaveUp,
    /// The log was emptied for an immediate rerun.
    Rerun,
    /// The thread waited for a change and the log was emptied for a rerun;
    /// with the changed variable and its live snapshot, when one was found
    /// before sleeping, and each variable compared with its live snapshot.
    Woke(Option<(usize, Payload)>, Vec<(usize, Payload)>),
}

/// A transaction log: for each variable accessed in the current attempt, by
/// the identity of its cell, what was read and written. Entries are kept in
/// increasing order of identity, which is the order commit locks them in.
pub struct Transaction {
    entries: Vec<Entry>,
}

impl View for Transaction {
    type V = Map<usize, LogVar>;

    closed spec fn view(&self) -> Map<usize, LogVar> {
        model(self.entries@)
    }
}

impl Transaction {
    #[verifier::type_invariant]
    spec fn entries_increasing(&self) -> bool {
        increasing(self.entries@) && well_keyed(self.entries@)
    }

    /// The log after reading variable `k`, where `fresh` is the live snapshot
    /// that a first read takes.
    pub open spec fn read_log(m: Map<usize, LogVar>, k: usize, fresh: Payload) -> Map<
        usize,
        LogVar,
    > {
        if m.contains_key(k) {
            m.insert(k, m[k].after_read())
        } else {
            m.insert(k, LogVar::Read(fresh))
        }
    }

    /// What reading variable `k` returns: the logged value, or else `fresh`.
    pub open spec fn read_value(m: Map<usize, LogVar>, k: usize, fresh: Payload) -> Payload {
        if m.contains_key(k) {
            m[k].current()
        } else {
            fresh
        }
    }

    /// The log after writing `w` to variable `k`.
    pub open spec fn write_log(m: Map<usize, LogVar>, k: usize, w: Payload) -> Map<
        usize,
        LogVar,
    > {
        if m.contains_key(k) {
            m.insert(k, m[k].after_write(w))
        } else {
            m.insert(k, LogVar::Write(w))
        }
    }

    /// `kept` extended by the reads of a discarded branch `dropped`, as
    /// obsolete reads, for the variables that `kept` does not hold.
    pub open spec fn combined(kept: Map<usize, LogVar>, dropped: Map<usize, LogVar>) -> Map<
        usize,
        LogVar,
    > {
        Map::new(
            |k: usize|
                kept.contains_key(k) || (dropped.contains_key(k) && dropped[k].original() is Some),
            |k: usize|
                if kept.contains_key(k) {
                    kept[k]
                } else {
                    LogVar::ReadObsolete(dropped[k].original().unwrap())
                },
        )
    }

    /// Whether a later retry blocks on variable `k` of log `m`.
    pub open spec fn blocks_on(m: Map<usize, LogVar>, k: usize) -> bool {
        m.contains_key(k) && m[k].original() is Some
    }

    /// An empty log.
    pub fn new() -> (r: Transaction)
        ensures
            r@ == Map::<usize, LogVar>::empty(),
    {
        let r = Transaction { entries: Vec::new() };
        assert(r@ =~= Map::<usize, LogVar>::empty());
        r
    }

    /// Empty the log; used between attempts.
    pub fn clear(&mut self)
        ensures
            final(self)@ == Map::<usize, LogVar>::empty(),
    {
        self.entries = Vec::new();
        assert(self@ =~= Map::<usize, LogVar>::empty());
    }

    /// Move the entries out, leaving the log empty.
    fn take_entries(&mut self) -> (r: Vec<Entry>)
        ensures
            r@ == old(self).entries@,
            increasing(r@),
            well_keyed(r@),
            final(self).entries@ == Seq::<Entry>::empty(),
    {
        proof {
            use_type_invariant(&*self);
        }
        let mut t = Transaction { entries: Vec::new() };
        std::mem::swap(self, &mut t);
        let Transaction { entries } = t;
        entries
    }

    /// Put increasing entries back.
    fn put_entries(&mut self, entries: Vec<Entry>)
        requires
            increasing(entries@),
            well_keyed(entries@),
        ensures
            final(self).entries@ == entries@,
    {
        *self = Transaction { entries };
    }

    /// The position of `key`, or where it would go, and whether it is there.
    fn find(&self, key: usize) -> (r: (usize, bool))
        ensures
            r.0 <= self.entries@.len(),
            forall|j: int| 0 <= j < r.0 ==> self.entries@[j].key < key,
            forall|j: int| r.0 < j < self.entries@.len() ==> key < self.entries@[j].key,
            r.1 == (r.0 < self.entries@.len() && self.entries@[r.0 as int].key == key),
            !r.1 ==> forall|j: int| r.0 <= j < self.entries@.len() ==> key < self.entries@[j].key,
            r.1 == self@.contains_key(key),
            r.1 ==> self@[key] == self.entries@[r.0 as int].log,
    {
        proof {
            use_type_invariant(self);
        }
        let mut i: usize = 0;
        while i < self.entries.len() && self.entries[i].key < key
            invariant
                i <= self.entries@.len(),
                forall|j: int| 0 <= j < i ==> self.entries@[j].key < key,
            decreases self.entries@.len() - i,
        {
            i = i + 1;
        }
        let found = i < self.entries.len() && self.entries[i].key == key;
        proof {
            let s = self.entries@;
            if found {
                lemma_index(s, i as int);
            } else {
                assert forall|j: int| i <= j < s.len() implies key < s[j].key by {
                    if j > i {
                        assert(s[i as int].key < s[j].key);
                    }
                }
                if has_key(s, key) {
                    let j = index_of(s, key);
                    assert(s[j].key == key);
                }
            }
        }
        (i, found)
    }

    /// Read the snapshot of `var` within the transaction: the logged value on
    /// a repeated access, or else the live snapshot, which is then logged.
    pub(crate) fn read_ref<T>(&mut self, var: &TVar<T>) -> (r: Payload)
        ensures
            final(self)@ == Transaction::read_log(old(self)@, var.id(), r),
            r == Transaction::read_value(old(self)@, var.id(), r),
    {
        proof {
            use_type_invariant(&*self);
        }
        let key = var.key();
        let pos = self.find(key);
        if pos.1 {
            let mut log = self.entries[pos.0].log.duplicate();
            let r = log.read();
            let cell = VarControlBlock::share(&self.entries[pos.0].cell);
            self.place(pos, key, cell, log);
            r
        } else {
            let r = var.control_block().snapshot();
            self.place(pos, key, VarControlBlock::share(var.control_block()), LogVar::Read(r.share()));
            r
        }
    }

    /// Log a write of snapshot `w` to `var`; nothing is published before commit.
    pub(crate) fn write_ref<T>(&mut self, var: &TVar<T>, w: Payload)
        ensures
            final(self)@ == Transaction::write_log(old(self)@, var.id(), w),
    {
        proof {
            use_type_invariant(&*self);
        }
        let key = var.key();
        let pos = self.find(key);
        if pos.1 {
            let mut log = self.entries[pos.0].log.duplicate();
            log.write(w);
            let cell = VarControlBlock::share(&self.entries[pos.0].cell);
            self.place(pos, key, cell, log);
        } else {
            self.place(pos, key, VarControlBlock::share(var.control_block()), LogVar::Write(w));
        }
    }

    /// Record `log` for `key` at the position that `find` gave.
    fn place(&mut self, pos: (usize, bool), key: usize, cell: Arc<VarControlBlock>, log: LogVar)
        requires
            pos.0 <= old(self).entries@.len(),
            forall|j: int| 0 <= j < pos.0 ==> old(self).entries@[j].key < key,
            pos.1 ==> pos.0 < old(self).entries@.len() && old(self).entries@[pos.0 as int].key
                == key,
            !pos.1 ==> forall|j: int|
                pos.0 <= j < old(self).entries@.len() ==> key < old(self).entries@[j].key,
            cell.id() == key,
        ensures
            final(self)@ == old(self)@.insert(key, log),
    {
        proof {
            use_type_invariant(&*self);
        }
        let e = Entry { key, cell, log };
        let mut entries = self.take_entries();
        let ghost before = entries@;
        if pos.1 {
            proof {
                lemma_update(entries@, pos.0 as int, e);
            }
            entries.set(pos.0, e);
            assert(well_keyed(entries@)) by {
                assert forall|j: int| 0 <= j < entries@.len() implies (#[trigger] entries@[j]).cell.id()
                    == entries@[j].key by {
                    if j != pos.0 {
                        assert(entries@[j] == before[j]);
                    }
                }
            }
        } else {
            proof {
                lemma_insert(entries@, pos.0 as int, e);
            }
            entries.insert(pos.0, e);
            assert(well_keyed(entries@)) by {
                assert forall|j: int| 0 <= j < entries@.len() implies (#[trigger] entries@[j]).cell.id()
                    == entries@[j].key by {
                    if j < pos.0 {
                        assert(entries@[j] == before[j]);
                    } else if j > pos.0 {
                        assert(entries@[j] == before[j - 1]);
                    }
                }
            }
        }
        self.put_entries(entries);
    }

    /// Read `var` within the transaction.
    ///
    /// A repeated access returns the logged value, possibly written earlier
    /// in this attempt; the first access takes the live snapshot. Values read
    /// may be stale: staleness is caught at commit. A snapshot that holds no
    /// `T`, which `TVar<T>` never makes, fails the attempt with `Failure`.
    pub fn read<T: Any + Send + Sync + Clone>(&mut self, var: &TVar<T>) -> (r: StmClosureResult<T>)
        ensures
            r is Ok || r == Err::<T, StmError>(StmError::Failure),
            final(self)@ == Transaction::read_log(old(self)@, var.id(), final(self)@[var.id()].current()),
    {
        let p = self.read_ref(var);
        assert(self@.contains_key(var.id()));
        match p.value::<T>() {
            Some(v) => Ok(v),
            None => Err(StmError::Failure),
        }
    }

    /// Write `value` to `var` within the transaction.
    pub fn write<T: Any + Send + Sync + Clone>(&mut self, var: &TVar<T>, value: T) -> (r: StmClosureResult<()>)
        ensures
            r is Ok,
            final(self)@.contains_key(var.id()),
            final(self)@[var.id()].written() is Some,
            final(self)@ == Transaction::write_log(old(self)@, var.id(),
                final(self)@[var.id()].written().unwrap()),
    {
        self.write_ref(var, Payload::new(value));
        Ok(())
    }

    /// A copy of the log, for `or` to restore.
    fn duplicate(&self) -> (r: Transaction)
        ensures
            r@ == self@,
    {
        proof {
            use_type_invariant(self);
        }
        let mut entries: Vec<Entry> = Vec::new();
        let mut i: usize = 0;
        while i < self.entries.len()
            invariant
                i <= self.entries@.len(),
                entries@.len() == i,
                well_keyed(self.entries@),
                forall|j: int|
                    0 <= j < i ==> entries@[j].key == self.entries@[j].key && entries@[j].log
                        == self.entries@[j].log && entries@[j].cell.id() == self.entries@[j].key,
            decreases self.entries@.len() - i,
        {
            let e = &self.entries[i];
            entries.push(Entry { key: e.key, cell: VarControlBlock::share(&e.cell), log: e.log.duplicate() });
            i = i + 1;
        }
        proof {
            let s = self.entries@;
            let t = entries@;
            assert(increasing(t));
            assert forall|k: usize| has_key(t, k) == has_key(s, k) by {
                if has_key(s, k) {
                    assert(t[index_of(s, k)].key == k);
                }
                if has_key(t, k) {
                    assert(s[index_of(t, k)].key == k);
                }
            }
            assert forall|k: usize| #[trigger] model(t).contains_key(k) implies model(t)[k] == model(
                s,
            )[k] by {
                let j = index_of(s, k);
                lemma_index(s, j);
                lemma_index(t, j);
            }
            assert(model(t) =~= model(s));
        }
        Transaction { entries }
    }

    /// Add the reads of a discarded branch's log as obsolete reads, for the
    /// variables this log does not hold; pure writes carry nothing to block
    /// on and are dropped.
    fn combine(&mut self, other: Transaction)
        ensures
            final(self)@ == Transaction::combined(old(self)@, other@),
    {
        proof {
            use_type_invariant(&other);
        }
        let ghost kept = self@;
        let ghost whole = other@;
        let Transaction { entries: others } = other;
        let mut i: usize = 0;
        while i < others.len()
            invariant
                i <= others@.len(),
                increasing(others@),
                well_keyed(others@),
                whole == model(others@),
                self@ == Transaction::combined(kept, model(others@.take(i as int))),
            decreases others@.len() - i,
        {
            let ghost before = model(others@.take(i as int));
            proof {
                let p = others@.take(i as int);
                assert(others@.take(i + 1) == p.insert(i as int, others@[i as int]));
                lemma_insert(p, i as int, others@[i as int]);
                assert(!before.contains_key(others@[i as int].key)) by {
                    if has_key(p, others@[i as int].key) {
                        let j = index_of(p, others@[i as int].key);
                        assert(p[j].key == others@[i as int].key);
                    }
                }
            }
            let key = others[i].key;
            let pos = self.find(key);
            if !pos.1 {
                let log = others[i].log.duplicate();
                match log.obsolete() {
                    Some(stale) => {
                        self.place(pos, key, VarControlBlock::share(&others[i].cell), stale);
                        assert(self@ =~= Transaction::combined(kept, before.insert(key, others@[i as int].log)));
                    },
                    None => {
                        assert(self@ =~= Transaction::combined(kept, before.insert(key, others@[i as int].log)));
                    },
                }
            } else {
                assert(self@ =~= Transaction::combined(kept, before.insert(key, others@[i as int].log)));
            }
            i = i + 1;
        }
        assert(others@.take(others@.len() as int) == others@);
    }

    /// Run `first`; if it asks to retry, run `second` on the log as it was
    /// before `first` instead.
    ///
    /// A result of `first` other than a retry is returned as it is, with its
    /// log. When `second` runs and does not fail with a conflict, the reads
    /// of `first` stay in the log as obsolete reads, so that a retry of the
    /// whole transaction also waits on the variables `first` depended on.
    pub fn or<T, F1, F2>(&mut self, first: F1, second: F2) -> (r: StmClosureResult<T>) where
        F1: Fn(&mut Transaction) -> StmClosureResult<T>,
        F2: Fn(&mut Transaction) -> StmClosureResult<T>,
        requires
            forall|t: &mut Transaction| first.requires((t,)),
            forall|t: &mut Transaction| second.requires((t,)),
        ensures
            exists|t1: &mut Transaction, r1: StmClosureResult<T>|
                *t1 == *old(self) && first.ensures((t1,), r1) && (r1 != Err::<T, StmError>(
                    StmError::Retry) ==> r == r1 && *final(self) == *final(t1)) && (r1 == Err::<
                    T,
                    StmError,
                >(StmError::Retry) ==> exists|t2: &mut Transaction, r2: StmClosureResult<T>|
                    (*t2)@ == old(self)@ && second.ensures((t2,), r2) && r == r2 && (r2
                        == Err::<T, StmError>(StmError::Failure) ==> *final(self) == *final(t2))
                        && (r2 != Err::<T, StmError>(StmError::Failure) ==> final(self)@
                        == Transaction::combined(final(t2)@, final(t1)@))),
    {
        let mut copy = self.duplicate();
        let f = first(self);
        match f {
            Err(StmError::Retry) => {
                std::mem::swap(self, &mut copy);
                let s = second(self);
                match s {
                    Err(StmError::Failure) => Err(StmError::Failure),
                    s => {
                        self.combine(copy);
                        s
                    },
                }
            },
            x => x,
        }
    }

    /// Whether an entry in state `l` takes a lock at commit: every entry but
    /// an obsolete read.
    pub open spec fn takes_lock(l: LogVar) -> bool {
        l.checked() || l.written() is Some
    }

    /// Whether `found`, the snapshot that commit found under the lock of
    /// variable `found.0`, shows that the variable's checked read is stale.
    pub open spec fn stale(m: Map<usize, LogVar>, found: (usize, Payload)) -> bool {
        m[found.0].checked() && m[found.0].original() != Some(found.1)
    }

    /// Whether none of the snapshots found under the locks shows a stale read.
    pub open spec fn all_current(m: Map<usize, LogVar>, found: Seq<(usize, Payload)>) -> bool {
        forall|i: int| 0 <= i < found.len() ==> !Transaction::stale(m, #[trigger] found[i])
    }

    /// Whether every variable of `m` that takes a lock has a found snapshot.
    pub open spec fn covers(m: Map<usize, LogVar>, found: Seq<(usize, Payload)>) -> bool {
        forall|k: usize|
            #[trigger] m.contains_key(k) && Transaction::takes_lock(m[k]) ==> exists|i: int|
                0 <= i < found.len() && found[i].0 == k
    }

    /// The locks taken on written variables, among `found`, in order.
    pub open spec fn written_found(found: Seq<(usize, Payload)>, m: Map<usize, LogVar>) -> Seq<
        (usize, Payload),
    >
        decreases found.len(),
    {
        if found.len() == 0 {
            Seq::empty()
        } else if m[found.last().0].written() is Some {
            Transaction::written_found(found.drop_last(), m).push(found.last())
        } else {
            Transaction::written_found(found.drop_last(), m)
        }
    }

    /// What the exclusive guards of a successful commit hold at release:
    /// for each written variable, in order, its identity and written value.
    pub open spec fn published(found: Seq<(usize, Payload)>, m: Map<usize, LogVar>) -> Seq<
        (usize, Payload),
    > {
        Transaction::written_found(found, m).map_values(
            |f: (usize, Payload)| (f.0, m[f.0].written().unwrap()),
        )
    }

    /// Phase one and two of the commit protocol, with the locks in `locks`;
    /// the caller releases them and then wakes the writers' waiters.
    ///
    /// Phase one goes through the entries in increasing identity, the same
    /// order in every thread: a written entry takes an exclusive lock on its
    /// cell, a plain read a shared one, an obsolete read none. The returned
    /// list holds, for each lock taken, the cell's identity and the snapshot
    /// under the lock. A checked entry whose snapshot is no longer the live
    /// one stops the commit with `false` before anything is stored: every
    /// exclusive guard then still holds the snapshot it found. Otherwise
    /// phase two releases the shared locks and stores each written value
    /// under the exclusive guard of its own cell; the third result lists the
    /// written variables in guard order.
    fn commit(&self, locks: &mut LockSet) -> (r: (bool, Vec<(usize, Payload)>, Vec<usize>))
        requires
            held_reads(*old(locks)) == Seq::<Payload>::empty(),
            held_writes(*old(locks)) == Seq::<(usize, Payload)>::empty(),
            taken(*old(locks)) == Seq::<(usize, Payload)>::empty(),
        ensures
            taken(*final(locks)) == r.1@,
            forall|i: int|
                0 <= i < r.1@.len() ==> self@.contains_key(#[trigger] r.1@[i].0)
                    && Transaction::takes_lock(self@[r.1@[i].0]),
            r.0 == Transaction::all_current(self@, r.1@),
            !r.0 ==> r.1@.len() > 0 && Transaction::stale(self@, r.1@.last()),
            !r.0 ==> held_writes(*final(locks)) == Transaction::written_found(r.1@, self@),
            r.0 ==> Transaction::covers(self@, r.1@),
            r.0 ==> held_reads(*final(locks)) == Seq::<Payload>::empty(),
            r.0 ==> held_writes(*final(locks)) == Transaction::published(r.1@, self@),
            r.0 ==> r.2@ == Transaction::published(r.1@, self@).map_values(
                |f: (usize, Payload)| f.0,
            ),
    {
        proof {
            use_type_invariant(self);
        }
        let mut found: Vec<(usize, Payload)> = Vec::new();
        let mut pending: Vec<Payload> = Vec::new();
        let mut keys: Vec<usize> = Vec::new();
        let mut i: usize = 0;
        while i < self.entries.len()
            invariant
                i <= self.entries@.len(),
                increasing(self.entries@),
                well_keyed(self.entries@),
                taken(*locks) == found@,
                held_writes(*locks) == Transaction::written_found(found@, self@),
                forall|f: int|
                    0 <= f < found@.len() ==> self@.contains_key(#[trigger] found@[f].0)
                        && Transaction::takes_lock(self@[found@[f].0]),
                forall|f: int|
                    0 <= f < found@.len() && i < self.entries@.len() ==> #[trigger] found@[f].0
                        < self.entries@[i as int].key,
                Transaction::all_current(self@, found@),
                forall|j: int|
                    0 <= j < i && Transaction::takes_lock(#[trigger] self.entries@[j].log)
                        ==> exists|f: int| 0 <= f < found@.len() && found@[f].0 == self.entries@[j].key,
                keys@ == Transaction::written_found(found@, self@).map_values(|f: (usize, Payload)| f.0),
                pending@.len() == keys@.len(),
                forall|j: int|
                    0 <= j < keys@.len() ==> pending@[j] == self@[#[trigger] keys@[j]].written().unwrap(),
            decreases self.entries@.len() - i,
        {
            let ghost found_before = found@;
            let ghost keys_before = keys@;
            let e = &self.entries[i];
            proof {
                lemma_index(self.entries@, i as int);
                assert(e.cell.id() == e.key);
                if has_taken(*locks, e.key) {
                    let f = choose|f: int| 0 <= f < taken(*locks).len() && taken(*locks)[f].0 == e.key;
                    assert(found@[f].0 < e.key);
                }
            }
            let taken_now: Option<Payload> = match &e.log {
                LogVar::Write(_) | LogVar::ReadObsoleteWrite(_, _) | LogVar::ReadWrite(_, _) => Some(
                    locks.lock_write(&e.cell),
                ),
                LogVar::Read(_) => Some(locks.lock_read(&e.cell)),
                LogVar::ReadObsolete(_) => None,
            };
            match taken_now {
                Some(live) => {
                    let current = match &e.log {
                        LogVar::Read(original) | LogVar::ReadWrite(original, _) => live.same(original),
                        _ => true,
                    };
                    found.push((e.key, live));
                    proof {
                        assert(found@.drop_last() == found_before);
                        assert forall|j: int|
                            0 <= j < i && Transaction::takes_lock(#[trigger] self.entries@[j].log)
                                implies exists|f: int|
                            0 <= f < found@.len() && found@[f].0 == self.entries@[j].key by {
                            let f = choose|f: int|
                                0 <= f < found_before.len() && found_before[f].0 == self.entries@[j].key;
                            assert(found@[f] == found_before[f]);
                        }
                        assert(found@[found@.len() - 1].0 == self.entries@[i as int].key);
                    }
                    if !current {
                        return (false, found, keys);
                    }
                    match &e.log {
                        LogVar::Write(w) | LogVar::ReadObsoleteWrite(_, w) | LogVar::ReadWrite(_, w) => {
                            pending.push(w.share());
                            keys.push(e.key);
                            proof {
                                assert(Transaction::written_found(found@, self@).map_values(
                                    |f: (usize, Payload)| f.0,
                                ) =~= keys_before.push(e.key));
                            }
                        },
                        _ => {},
                    }
                },
                None => {},
            }
            proof {
                if i + 1 < self.entries@.len() {
                    assert(self.entries@[i as int].key < self.entries@[i + 1].key);
                }
            }
            i = i + 1;
        }
        proof {
            assert forall|k: usize|
                #[trigger] self@.contains_key(k) && Transaction::takes_lock(self@[k]) implies exists|
                f: int,
            | 0 <= f < found@.len() && found@[f].0 == k by {
                let j = index_of(self.entries@, k);
                lemma_index(self.entries@, j);
            }
        }
        locks.release_reads();
        let ghost wf = Transaction::written_found(found@, self@);
        let mut j: usize = 0;
        while j < pending.len()
            invariant
                j <= pending@.len(),
                wf == Transaction::written_found(found@, self@),
                keys@ == wf.map_values(|f: (usize, Payload)| f.0),
                pending@.len() == keys@.len(),
                forall|m: int|
                    0 <= m < keys@.len() ==> pending@[m] == self@[#[trigger] keys@[m]].written().unwrap(),
                held_reads(*locks) == Seq::<Payload>::empty(),
                taken(*locks) == found@,
                held_writes(*locks).len() == pending@.len(),
                forall|m: int| 0 <= m < j ==> #[trigger] held_writes(*locks)[m] == (keys@[m], pending@[m]),
                forall|m: int| j <= m < pending@.len() ==> #[trigger] held_writes(*locks)[m] == wf[m],
            decreases pending@.len() - j,
        {
            locks.store(j, pending[j].share());
            j = j + 1;
        }
        proof {
            assert(held_writes(*locks) =~= Transaction::published(found@, self@));
        }
        (true, found, keys)
    }

    /// Wake the attempts blocked on the variables `keys`.
    fn wake(&self, keys: &Vec<usize>) {
        let mut j: usize = 0;
        while j < keys.len()
            invariant
                j <= keys@.len(),
            decreases keys@.len() - j,
        {
            let pos = self.find(keys[j]);
            if pos.1 {
                self.entries[pos.0].cell.wake_all();
            }
            j = j + 1;
        }
    }

    /// Block until a variable that this attempt read may have changed, and
    /// empty the log.
    ///
    /// For each entry with a read snapshot, obsolete reads included, in
    /// order, the wait handle is registered with the variable before its
    /// live snapshot is compared with the one read, so a change between the
    /// two is seen by the comparison and a change after it wakes the handle.
    /// The second result lists each variable compared with the live snapshot
    /// found. The first changed variable ends the comparisons and is also
    /// returned first; if none changed (`None`), every entry with a read
    /// snapshot was compared and found current, and the thread sleeps until
    /// woken. Afterwards the handle is dropped from every variable it was
    /// registered with.
    fn wait_for_change(&mut self) -> (r: (Option<(usize, Payload)>, Vec<(usize, Payload)>))
        ensures
            final(self)@ == Map::<usize, LogVar>::empty(),
            forall|f: int| 0 <= f < r.1@.len() ==> Transaction::blocks_on(old(self)@, #[trigger] r.1@[f].0),
            r.0 is None ==> forall|k: usize|
                #[trigger] Transaction::blocks_on(old(self)@, k) ==> exists|f: int|
                    0 <= f < r.1@.len() && r.1@[f].0 == k,
            r.0 is None ==> forall|f: int|
                0 <= f < r.1@.len() ==> old(self)@[(#[trigger] r.1@[f]).0].original() == Some(r.1@[f].1),
            r.0 matches Some(c) ==> r.1@.len() > 0 && c == r.1@.last() && old(self)@[c.0].original()
                != Some(c.1),
    {
        let ghost m = self@;
        let ctrl = Arc::new(ControlBlock::new());
        let entries = self.take_entries();
        assert(self@ =~= Map::<usize, LogVar>::empty());
        let mut registered: Vec<usize> = Vec::new();
        let mut compared: Vec<(usize, Payload)> = Vec::new();
        let mut changed: Option<(usize, Payload)> = None;
        let mut i: usize = 0;
        while i < entries.len() && changed.is_none()
            invariant
                i <= entries@.len(),
                increasing(entries@),
                m == model(entries@),
                forall|f: int| 0 <= f < compared@.len() ==> Transaction::blocks_on(m, #[trigger] compared@[f].0),
                changed is None ==> forall|f: int|
                    0 <= f < compared@.len() ==> m[(#[trigger] compared@[f]).0].original() == Some(
                        compared@[f].1,
                    ),
                changed is None ==> forall|j: int|
                    0 <= j < i && (#[trigger] entries@[j]).log.original() is Some ==> exists|f: int|
                        0 <= f < compared@.len() && compared@[f].0 == entries@[j].key,
                changed matches Some(c) ==> compared@.len() > 0 && c == compared@.last() && m[c.0].original()
                    != Some(c.1),
                forall|j: int| 0 <= j < registered@.len() ==> registered@[j] < entries@.len(),
            decreases entries@.len() - i,
        {
            let ghost compared_before = compared@;
            match entries[i].log.duplicate().into_read_value() {
                Some(original) => {
                    entries[i].cell.wait(&ctrl);
                    let live = entries[i].cell.snapshot();
                    proof {
                        lemma_index(entries@, i as int);
                    }
                    let current = live.same(&original);
                    compared.push((entries[i].key, live.share()));
                    if !current {
                        changed = Some((entries[i].key, live));
                    }
                    registered.push(i);
                    proof {
                        assert forall|j: int|
                            0 <= j < i && (#[trigger] entries@[j]).log.original() is Some && changed is None
                                implies exists|f: int|
                            0 <= f < compared@.len() && compared@[f].0 == entries@[j].key by {
                            let f = choose|f: int|
                                0 <= f < compared_before.len() && compared_before[f].0 == entries@[j].key;
                            assert(compared@[f] == compared_before[f]);
                        }
                        assert(compared@[compared@.len() - 1].0 == entries@[i as int].key);
                    }
                },
                None => {},
            }
            i = i + 1;
        }
        proof {
            if changed is None {
                assert forall|k: usize| #[trigger] Transaction::blocks_on(m, k) implies exists|f: int|
                    0 <= f < compared@.len() && compared@[f].0 == k by {
                    let j = index_of(entries@, k);
                    lemma_index(entries@, j);
                }
            }
        }
        if changed.is_none() {
            ctrl.wait();
        }
        ctrl.set_changed();
        let mut k: usize = 0;
        while k < registered.len()
            invariant
                k <= registered@.len(),
                forall|j: int| 0 <= j < registered@.len() ==> registered@[j] < entries@.len(),
            decreases registered@.len() - k,
        {
            entries[registered[k]].cell.set_dead();
            k = k + 1;
        }
        (changed, compared)
    }

    /// Commit this log after its body returned a value, releasing the locks
    /// and waking the waiters of the written variables on success, or
    /// emptying the log for a rerun on a conflict.
    fn finish<T, E>(&mut self, v: T) -> (r: Attempt<T, E>)
        ensures
            match r {
                Attempt::Validated(w, found) => w == v && *final(self) == *old(self)
                    && Transaction::all_current(old(self)@, found@) && Transaction::covers(
                    old(self)@,
                    found@,
                ),
                Attempt::Conflict(k, p) => Transaction::stale(old(self)@, (k, p)) && final(self)@
                    == Map::<usize, LogVar>::empty(),
                _ => false,
            },
    {
        let mut locks = LockSet::new();
        let (ok, found, keys) = self.commit(&mut locks);
        locks.release();
        if ok {
            self.wake(&keys);
            Attempt::Validated(v, found)
        } else {
            let last = found.len() - 1;
            let k = found[last].0;
            let p = found[last].1.share();
            self.clear();
            Attempt::Conflict(k, p)
        }
    }

    /// Run a fallible body once on this log and commit if it succeeded.
    ///
    /// A success is `Validated` only when commit found every checked read
    /// current, with the snapshots found under its locks; otherwise it is a
    /// `Conflict` naming a stale read, and the log is cleared for a rerun.
    /// An abort or a signal runs no commit and keeps the body's log: an
    /// abort hands back its error, a signal is left to `settle`.
    pub fn attempt_with_err<T, E, F>(&mut self, body: &F) -> (r: Attempt<T, E>) where
        F: Fn(&mut Transaction) -> TransactionClosureResult<T, E>,
        requires
            forall|t: &mut Transaction| body.requires((t,)),
        ensures
            exists|t: &mut Transaction, out: TransactionClosureResult<T, E>|
                *t == *old(self) && body.ensures((t,), out) && match out {
                    Ok(v) => match r {
                        Attempt::Validated(w, found) => w == v && *final(self) == *final(t)
                            && Transaction::all_current(final(t)@, found@) && Transaction::covers(
                            final(t)@,
                            found@,
                        ),
                        Attempt::Conflict(k, p) => Transaction::stale(final(t)@, (k, p))
                            && final(self)@ == Map::<usize, LogVar>::empty(),
                        _ => false,
                    },
                    Err(TransactionError::Abort(e)) => r == Attempt::<T, E>::Cancelled(e) && *final(self) == *final(t),
                    Err(TransactionError::Stm(s)) => r == Attempt::<T, E>::Signalled(s) && *final(self) == *final(t),
                },
    {
        match body(self) {
            Ok(v) => self.finish(v),
            Err(TransactionError::Abort(e)) => Attempt::Cancelled(e),
            Err(TransactionError::Stm(s)) => Attempt::Signalled(s),
        }
    }

    /// Run a body once on this log and commit if it succeeded; like
    /// `attempt_with_err` for a body that cannot abort.
    pub fn attempt<T, F>(&mut self, body: &F) -> (r: Attempt<T, ()>) where
        F: Fn(&mut Transaction) -> StmClosureResult<T>,
        requires
            forall|t: &mut Transaction| body.requires((t,)),
        ensures
            exists|t: &mut Transaction, out: StmClosureResult<T>|
                *t == *old(self) && body.ensures((t,), out) && match out {
                    Ok(v) => match r {
                        Attempt::Validated(w, found) => w == v && *final(self) == *final(t)
                            && Transaction::all_current(final(t)@, found@) && Transaction::covers(
                            final(t)@,
                            found@,
                        ),
                        Attempt::Conflict(k, p) => Transaction::stale(final(t)@, (k, p))
                            && final(self)@ == Map::<usize, LogVar>::empty(),
                        _ => false,
                    },
                    Err(s) => r == Attempt::<T, ()>::Signalled(s) && *final(self) == *final(t),
                },
    {
        match body(self) {
            Ok(v) => self.finish(v),
            Err(s) => Attempt::Signalled(s),
        }
    }

    /// Act on a signalled attempt as the control function decided.
    ///
    /// `Abort` gives up and leaves the log as it is. `Retry` prepares a rerun
    /// with an empty log: after an explicit retry it first waits for a
    /// change of a variable the attempt read, as `wait_for_change` says, and
    /// reports what it compared; after a conflict it does not wait.
    pub fn settle(&mut self, signal: StmError, control: TransactionControl) -> (r: Settled)
        ensures
            (r is GaveUp) == (control == TransactionControl::Abort),
            r is GaveUp ==> *final(self) == *old(self),
            !(r is GaveUp) ==> final(self)@ == Map::<usize, LogVar>::empty(),
            control == TransactionControl::Retry ==> ((r is Woke) == (signal == StmError::Retry)),
            r matches Settled::Woke(changed, compared) ==> {
                &&& forall|f: int|
                    0 <= f < compared@.len() ==> Transaction::blocks_on(old(self)@, #[trigger] compared@[f].0)
                &&& changed is None ==> forall|k: usize|
                    #[trigger] Transaction::blocks_on(old(self)@, k) ==> exists|f: int|
                        0 <= f < compared@.len() && compared@[f].0 == k
                &&& changed is None ==> forall|f: int|
                    0 <= f < compared@.len() ==> old(self)@[(#[trigger] compared@[f]).0].original()
                        == Some(compared@[f].1)
                &&& changed matches Some(c) ==> compared@.len() > 0 && c == compared@.last() && old(
                    self,
                )@[c.0].original() != Some(c.1)
            },
    {
        match control {
            TransactionControl::Abort => Settled::GaveUp,
            TransactionControl::Retry => {
                if signal == StmError::Retry {
                    let (changed, compared) = self.wait_for_change();
                    self.clear();
                    Settled::Woke(changed, compared)
                } else {
                    self.clear();
                    Settled::Rerun
                }
            },
        }
    }
}



/// Run `f`; when it asks to retry, do not retry the whole transaction but
/// return `None`, keeping what `f` read for a later retry to wait on.
pub fn optionally<T, F>(tx: &mut Transaction, f: F) -> (r: StmClosureResult<Option<T>>) where
    F: Fn(&mut Transaction) -> StmClosureResult<T>,
    requires
        forall|t: &mut Transaction| f.requires((t,)),
    ensures
        exists|t1: &mut Transaction, r1: StmClosureResult<T>|
            *t1 == *old(tx) && f.ensures((t1,), r1) && match r1 {
                Ok(v) => r == Ok::<Option<T>, StmError>(Some(v)) && *final(tx) == *final(t1),
                Err(StmError::Failure) => r == Err::<Option<T>, StmError>(StmError::Failure)
                    && *final(tx) == *final(t1),
                Err(StmError::Retry) => r == Ok::<Option<T>, StmError>(None) && final(tx)@
                    == Transaction::combined(old(tx)@, final(t1)@),
            },
{
    let body = &f;
    let some = |t: &mut Transaction| -> (r: StmClosureResult<Option<T>>)
        requires
            body.requires((t,)),
        ensures
            exists|t1: &mut Transaction, r1: StmClosureResult<T>|
                *t1 == *old(t) && *final(t1) == *final(t) && body.ensures((t1,), r1) && match r1 {
                Ok(v) => r == Ok::<Option<T>, StmError>(Some(v)),
                Err(e) => r == Err::<Option<T>, StmError>(e),
            },
        {
            match body(t) {
                Ok(v) => Ok(Some(v)),
                Err(e) => Err(e),
            }
        };
    let none = |t: &mut Transaction| -> (r: StmClosureResult<Option<T>>)
        ensures
            r == Ok::<Option<T>, StmError>(None),
            *final(t) == *old(t),
        { Ok(None) };
    tx.or(some, none)
}


/// The mark that a thread is running a transaction; only one transaction may
/// run on a thread at a time.
pub struct TransactionGuard {
    entered: bool,
}

impl TransactionGuard {
    /// Enter a transaction on a thread whose running flag is `running`.
    ///
    /// Starting a transaction inside a running one is a programming error:
    /// the precondition excludes it, and a caller that cannot prove it checks
    /// the flag first and fails.
    pub fn new(running: &mut bool) -> (g: TransactionGuard)
        requires
            !*old(running),
        ensures
            *final(running),
    {
        *running = true;
        TransactionGuard { entered: true }
    }

    /// Leave the transaction: the thread may start another one.
    pub fn release(self, running: &mut bool)
        ensures
            !*final(running),
    {
        *running = false;
    }
}

/// Within one attempt, a read after a write returns the value just written.
pub proof fn lemma_read_after_write(m: Map<usize, LogVar>, k: usize, w: Payload, fresh: Payload)
    ensures
        Transaction::read_value(Transaction::write_log(m, k, w), k, fresh) == w,
        Transaction::read_log(Transaction::write_log(m, k, w), k, fresh)[k].written() == Some(w),
{
}

/// When `or` falls back to its second branch, a retry of the whole
/// transaction still blocks on every variable that either branch read: the
/// first branch's reads survive as obsolete reads wherever the second branch
/// did not touch the variable, and the second branch's reads are kept.
pub proof fn lemma_or_keeps_blocking(kept: Map<usize, LogVar>, dropped: Map<usize, LogVar>, k: usize)
    ensures
        Transaction::blocks_on(dropped, k) && !kept.contains_key(k) ==> Transaction::blocks_on(
            Transaction::combined(kept, dropped),
            k,
        ),
        Transaction::blocks_on(kept, k) ==> Transaction::blocks_on(Transaction::combined(kept, dropped), k),
        Transaction::combined(kept, dropped).contains_key(k) && !kept.contains_key(k) ==> Transaction::combined(
            kept,
            dropped,
        )[k] is ReadObsolete,
{
}

/// Reading or writing one variable leaves every other variable's entry as it
/// was; with the lemma above, a read returns the value last written to that
/// variable in the attempt, whatever was read or written in between.
pub proof fn lemma_other_variables_untouched(m: Map<usize, LogVar>, k: usize, j: usize, p: Payload)
    requires
        j != k,
    ensures
        Transaction::read_log(m, j, p).contains_key(k) == m.contains_key(k),
        Transaction::write_log(m, j, p).contains_key(k) == m.contains_key(k),
        m.contains_key(k) ==> Transaction::read_log(m, j, p)[k] == m[k],
        m.contains_key(k) ==> Transaction::write_log(m, j, p)[k] == m[k],
{
}

/// Reads and writes only grow the log: a variable once logged in an attempt
/// stays logged, with its original read kept, until the log is cleared.
pub proof fn lemma_log_keeps_reads(m: Map<usize, LogVar>, k: usize, j: usize, p: Payload)
    requires
        m.contains_key(j),
    ensures
        Transaction::read_log(m, k, p).contains_key(j),
        Transaction::write_log(m, k, p).contains_key(j),
        Transaction::read_log(m, k, p)[j].original() == m[j].original(),
        Transaction::write_log(m, k, p)[j].original() == m[j].original(),
{
}

} // verus!
