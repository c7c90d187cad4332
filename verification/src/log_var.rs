use vstd::prelude::*;
use crate::value::{Value, ValueV};

verus! {

/// How a transaction has touched one variable.
///
/// A read snapshot carries the version stamp the variable had when it was
/// read; commit-time validation compares that stamp against the live one.
/// Obsolete reads come from abandoned branches of an alternative: they keep
/// the variable in the wait set but take no part in validation.
pub enum LogVar {
    /// Only read; the snapshot observed.
    Read(u64, Value),
    /// Only written; the value to commit.
    Write(Value),
    /// Read, then overwritten: snapshot and pending write.
    ReadWrite(u64, Value, Value),
    /// Read in an abandoned branch of an alternative.
    ReadObsolete(u64, Value),
    /// Obsolete read plus a live write from the surviving branch.
    ReadObsoleteWrite(u64, Value, Value),
}

/// The mathematical shape of a log entry.
pub enum LogVarV {
    Read(u64, ValueV),
    Write(ValueV),
    ReadWrite(u64, ValueV, ValueV),
    ReadObsolete(u64, ValueV),
    ReadObsoleteWrite(u64, ValueV, ValueV),
}

impl View for LogVar {
    type V = LogVarV;

    open spec fn view(&self) -> LogVarV {
        match self {
            LogVar::Read(ver, v) => LogVarV::Read(*ver, v@),
            LogVar::Write(w) => LogVarV::Write(w@),
            LogVar::ReadWrite(ver, v, w) => LogVarV::ReadWrite(*ver, v@, w@),
            LogVar::ReadObsolete(ver, v) => LogVarV::ReadObsolete(*ver, v@),
            LogVar::ReadObsoleteWrite(ver, v, w) => LogVarV::ReadObsoleteWrite(*ver, v@, w@),
        }
    }
}

impl LogVarV {
    /// The value a read of this entry observes: the pending write if any,
    /// else the snapshot.
    pub open spec fn observed(self) -> ValueV {
        match self {
            LogVarV::Read(_, v) => v,
            LogVarV::Write(w) => w,
            LogVarV::ReadWrite(_, _, w) => w,
            LogVarV::ReadObsolete(_, v) => v,
            LogVarV::ReadObsoleteWrite(_, _, w) => w,
        }
    }

    /// The entry after writing `w` over this entry.
    pub open spec fn write_step(self, w: ValueV) -> LogVarV {
        match self {
            LogVarV::Read(ver, v) => LogVarV::ReadWrite(ver, v, w),
            LogVarV::Write(_) => LogVarV::Write(w),
            LogVarV::ReadWrite(ver, v, _) => LogVarV::ReadWrite(ver, v, w),
            LogVarV::ReadObsolete(ver, v) => LogVarV::ReadObsoleteWrite(ver, v, w),
            LogVarV::ReadObsoleteWrite(ver, v, _) => LogVarV::ReadObsoleteWrite(ver, v, w),
        }
    }

    /// The wait-relevant residue of this entry: the read snapshot, if any,
    /// kept as obsolete. A pure write leaves nothing to wait on.
    pub open spec fn obsolete_spec(self) -> Option<LogVarV> {
        match self {
            LogVarV::Read(ver, v) => Some(LogVarV::ReadObsolete(ver, v)),
            LogVarV::Write(_) => None,
            LogVarV::ReadWrite(ver, v, _) => Some(LogVarV::ReadObsolete(ver, v)),
            LogVarV::ReadObsolete(ver, v) => Some(LogVarV::ReadObsolete(ver, v)),
            LogVarV::ReadObsoleteWrite(ver, v, _) => Some(LogVarV::ReadObsolete(ver, v)),
        }
    }

    /// The pending write of this entry, if it has one.
    pub open spec fn written(self) -> Option<ValueV> {
        match self {
            LogVarV::Write(w) => Some(w),
            LogVarV::ReadWrite(_, _, w) => Some(w),
            LogVarV::ReadObsoleteWrite(_, _, w) => Some(w),
            _ => None,
        }
    }

    /// The version stamp this entry's live snapshot was taken at, if the
    /// entry takes part in commit-time validation.
    pub open spec fn validation_version(self) -> Option<u64> {
        match self {
            LogVarV::Read(ver, _) => Some(ver),
            LogVarV::ReadWrite(ver, _, _) => Some(ver),
            _ => None,
        }
    }

    /// Whether commit must validate this entry against the live variable.
    pub open spec fn needs_validation(self) -> bool {
        self.validation_version() is Some
    }

    /// The version stamp of any snapshot this entry holds, live or obsolete;
    /// the blocked-retry wait path re-checks it before parking.
    pub open spec fn wait_version(self) -> Option<u64> {
        match self {
            LogVarV::Read(ver, _) => Some(ver),
            LogVarV::Write(_) => None,
            LogVarV::ReadWrite(ver, _, _) => Some(ver),
            LogVarV::ReadObsolete(ver, _) => Some(ver),
            LogVarV::ReadObsoleteWrite(ver, _, _) => Some(ver),
        }
    }
}

/// A read after a write observes the written value, whatever the entry held
/// before.
pub proof fn lemma_write_then_observe(e: LogVarV, w: ValueV)
    ensures
        e.write_step(w).observed() == w,
{
}

/// Writing over an entry changes neither the snapshot it waits on nor its
/// validation duty: an entry validates against the stamp of its first live
/// read, and an obsolete read stays out of validation.
pub proof fn lemma_write_keeps_snapshot(e: LogVarV, w: ValueV)
    ensures
        e.write_step(w).wait_version() == e.wait_version(),
        e.write_step(w).validation_version() == e.validation_version(),
{
}

/// The obsolete residue of an entry keeps exactly the snapshot the entry
/// waits on, takes no part in validation, and exists precisely for entries
/// that hold a snapshot: a pure write leaves nothing to wait on.
pub proof fn lemma_obsolete_residue(e: LogVarV)
    ensures
        e.obsolete_spec() is Some <==> e.wait_version() is Some,
        match e.obsolete_spec() {
            Some(o) => {
                &&& o.wait_version() == e.wait_version()
                &&& o.validation_version() is None
            },
            None => true,
        },
{
}

impl LogVar {
    /// A copy of the entry with the same mathematical shape.
    pub fn dup(&self) -> (r: LogVar)
        ensures
            r@ == self@,
    {
        match self {
            LogVar::Read(ver, v) => LogVar::Read(*ver, v.dup()),
            LogVar::Write(w) => LogVar::Write(w.dup()),
            LogVar::ReadWrite(ver, v, w) => LogVar::ReadWrite(*ver, v.dup(), w.dup()),
            LogVar::ReadObsolete(ver, v) => LogVar::ReadObsolete(*ver, v.dup()),
            LogVar::ReadObsoleteWrite(ver, v, w) => LogVar::ReadObsoleteWrite(*ver, v.dup(), w.dup()),
        }
    }

    /// The observed value, as an executable copy.
    pub fn read_value(&self) -> (r: Value)
        ensures
            r@ == self@.observed(),
    {
        match self {
            LogVar::Read(_, v) => v.dup(),
            LogVar::Write(w) => w.dup(),
            LogVar::ReadWrite(_, _, w) => w.dup(),
            LogVar::ReadObsolete(_, v) => v.dup(),
            LogVar::ReadObsoleteWrite(_, _, w) => w.dup(),
        }
    }

    /// The entry after writing `w`, consuming this entry.
    pub fn apply_write(self, w: Value) -> (r: LogVar)
        ensures
            r@ == self@.write_step(w@),
    {
        match self {
            LogVar::Read(ver, v) => LogVar::ReadWrite(ver, v, w),
            LogVar::Write(_) => LogVar::Write(w),
            LogVar::ReadWrite(ver, v, _) => LogVar::ReadWrite(ver, v, w),
            LogVar::ReadObsolete(ver, v) => LogVar::ReadObsoleteWrite(ver, v, w),
            LogVar::ReadObsoleteWrite(ver, v, _) => LogVar::ReadObsoleteWrite(ver, v, w),
        }
    }

    /// The pending write, as an executable copy.
    pub fn written_value(&self) -> (r: Option<Value>)
        ensures
            match r {
                Some(w) => self@.written() == Some(w@),
                None => self@.written() is None,
            },
    {
        match self {
            LogVar::Write(w) => Some(w.dup()),
            LogVar::ReadWrite(_, _, w) => Some(w.dup()),
            LogVar::ReadObsoleteWrite(_, _, w) => Some(w.dup()),
            _ => None,
        }
    }

    /// The version stamp of any snapshot this entry holds, live or obsolete.
    pub fn wait_version_exec(&self) -> (r: Option<u64>)
        ensures
            r == self@.wait_version(),
    {
        match self {
            LogVar::Read(ver, _) => Some(*ver),
            LogVar::Write(_) => None,
            LogVar::ReadWrite(ver, _, _) => Some(*ver),
            LogVar::ReadObsolete(ver, _) => Some(*ver),
            LogVar::ReadObsoleteWrite(ver, _, _) => Some(*ver),
        }
    }

    /// Commit-time validation of this entry against the variable's live
    /// version stamp: an entry with a live read snapshot is consistent
    /// exactly when the stamp it was read at is still the stored one;
    /// entries without a live snapshot have nothing to validate.
    pub fn validates_against(&self, current_version: u64) -> (r: bool)
        ensures
            r == match self@.validation_version() {
                Some(ver) => ver == current_version,
                None => true,
            },
    {
        match self {
            LogVar::Read(ver, _) => *ver == current_version,
            LogVar::ReadWrite(ver, _, _) => *ver == current_version,
            _ => true,
        }
    }

    /// The wait-relevant residue, consuming this entry.
    pub fn into_obsolete(self) -> (r: Option<LogVar>)
        ensures
            match r {
                Some(e) => Some(e@) == self@.obsolete_spec(),
                None => self@.obsolete_spec() is None,
            },
    {
        match self {
            LogVar::Read(ver, v) => Some(LogVar::ReadObsolete(ver, v)),
            LogVar::Write(_) => None,
            LogVar::ReadWrite(ver, v, _) => Some(LogVar::ReadObsolete(ver, v)),
            LogVar::ReadObsolete(ver, v) => Some(LogVar::ReadObsolete(ver, v)),
            LogVar::ReadObsoleteWrite(ver, v, _) => Some(LogVar::ReadObsolete(ver, v)),
        }
    }
}

} // verus!
