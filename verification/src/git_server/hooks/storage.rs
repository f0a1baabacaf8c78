//! Reference updates applied in one git transaction, each guarded by what
//! the reference must have held before.
//!
//! Each update is decided here from the reference's current value; the
//! transaction itself (locking, writing, deleting, committing) is carried out
//! by the caller, which reports its git errors as `Txn` errors.
use vstd::prelude::*;

use crate::oid::Oid;

verus! {

/// The reference was symbolic, but it is expected to be direct.
#[derive(Debug, Clone, Copy, PartialEq, Eq)]
pub struct SymbolicRef;

/// Errors of a reference transaction.
#[derive(Debug, Clone)]
pub enum Txn {
    /// Failed to initialise git transaction.
    Acquire(String),
    /// Failed to commit git transaction.
    Commit(String),
    /// Failed to delete reference `refname`.
    Delete { refname: String, source: String },
    /// Failed while acquiring lock for `refname`.
    Lock { refname: String, source: String },
    /// The reference could not be read.
    Read(String),
    /// The reference was symbolic, but it is expected to be direct.
    SymbolicRef(SymbolicRef),
    /// Failed to write reference `refname` with target `target`.
    Write { refname: String, target: Oid, source: String },
}

/// What a reference must hold before it is updated.
#[derive(Debug, Clone, Copy)]
pub enum PreviousValue {
    /// Anything, or not exist.
    Any,
    /// It must exist.
    MustExist,
    /// It must not exist.
    MustNotExist,
    /// If it exists, it must point to this object.
    IfExistsMustMatch(Oid),
    /// It must exist and point to this object.
    MustExistAndMatch(Oid),
}

/// Why an update was rejected.
#[derive(Debug, Clone, Copy)]
pub enum PreviousError {
    /// The reference existed, pointing to this object.
    DidExist(Oid),
    /// The reference did not exist.
    DidNotExist,
    /// The reference pointed to another object.
    DidNotMatch { expected: Oid, actual: Oid },
}

/// An update of a reference.
#[derive(Debug, Clone)]
pub enum Update {
    /// Point the reference to `target`.
    Write { name: String, target: Oid, previous: PreviousValue },
    /// Remove the reference.
    Delete { name: String, previous: PreviousValue },
}

/// An update that was applied.
#[derive(Debug, Clone)]
pub enum Updated {
    /// The reference now points to `target`.
    Written { name: String, target: Oid },
    /// The reference, which pointed to `previous`, was removed.
    Deleted { name: String, previous: Oid },
}

/// The updates applied and rejected by a transaction, in order.
#[derive(Debug)]
pub struct Applied {
    pub updates: Vec<Updated>,
    pub rejections: Vec<PreviousError>,
}

/// The current value of a reference.
#[derive(Debug, Clone, Copy)]
pub enum Current {
    /// The reference does not exist.
    Missing,
    /// The reference points directly to an object.
    Direct(Oid),
    /// The reference is symbolic.
    Symbolic,
}

/// The rejection that `previous` makes of a reference whose target is
/// `given`, or `None` when the update may go ahead.
pub open spec fn guard_spec(previous: PreviousValue, given: Option<Oid>) -> Option<PreviousError> {
    match previous {
        PreviousValue::Any => None,
        PreviousValue::MustExist => match given {
            Some(_) => None,
            None => Some(PreviousError::DidNotExist),
        },
        PreviousValue::MustNotExist => match given {
            Some(g) => Some(PreviousError::DidExist(g)),
            None => None,
        },
        PreviousValue::IfExistsMustMatch(expected) => match given {
            Some(g) => if g.bytes@ == expected.bytes@ {
                None
            } else {
                Some(PreviousError::DidNotMatch { expected, actual: g })
            },
            None => None,
        },
        PreviousValue::MustExistAndMatch(expected) => match given {
            Some(g) => if g.bytes@ == expected.bytes@ {
                None
            } else {
                Some(PreviousError::DidNotMatch { expected, actual: g })
            },
            None => Some(PreviousError::DidNotExist),
        },
    }
}

impl PreviousValue {
    /// Whether an update may go ahead on a reference whose target is `given`:
    /// `None` when it may, else why it is rejected.
    pub fn guard(&self, given: Option<Oid>) -> (r: Option<PreviousError>)
        ensures
            r == guard_spec(*self, given),
    {
        match self {
            PreviousValue::Any => None,
            PreviousValue::MustExist => match given {
                Some(_) => None,
                None => Some(PreviousError::DidNotExist),
            },
            PreviousValue::MustNotExist => match given {
                Some(g) => Some(PreviousError::DidExist(g)),
                None => None,
            },
            PreviousValue::IfExistsMustMatch(expected) => match given {
                Some(g) => if g.same(expected) {
                    None
                } else {
                    Some(PreviousError::DidNotMatch { expected: *expected, actual: g })
                },
                None => None,
            },
            PreviousValue::MustExistAndMatch(expected) => match given {
                Some(g) => if g.same(expected) {
                    None
                } else {
                    Some(PreviousError::DidNotMatch { expected: *expected, actual: g })
                },
                None => Some(PreviousError::DidNotExist),
            },
        }
    }
}

/// The target of a reference's current value, if it points directly to one.
pub open spec fn target_of(current: Current) -> Option<Oid> {
    match current {
        Current::Direct(o) => Some(o),
        _ => None,
    }
}

/// What to do for one update, given the reference's current value.
#[derive(Debug)]
pub struct Step {
    /// Write or remove the reference.
    pub apply: bool,
    /// Then fail the transaction: the reference to delete is symbolic.
    pub symbolic: bool,
    /// Then record this outcome.
    pub record: Option<Result<Updated, PreviousError>>,
}

/// Decides one update of a transaction from the reference's current value.
/// A write goes ahead when the guard allows it and is recorded as written,
/// or is recorded as rejected. A delete of an existing reference goes ahead
/// when the guard allows it; a symbolic reference then fails the transaction
/// (whether or not it was removed); else it is recorded as deleted or
/// rejected. A delete of a missing reference does nothing, unless it had to
/// exist, in which case it is rejected.
pub fn plan(update: &Update, current: Current) -> (s: Step)
    ensures
        match *update {
            Update::Write { name, target, previous } => !s.symbolic && match guard_spec(
                previous,
                target_of(current),
            ) {
                None => s.apply && (s.record matches Some(Ok(Updated::Written { name: n, target: t }))
                    && n@ == name@ && t == target),
                Some(e) => !s.apply && s.record == Some(Err::<Updated, PreviousError>(e)),
            },
            Update::Delete { name, previous } => match current {
                Current::Missing => !s.apply && !s.symbolic && match previous {
                    PreviousValue::MustExist | PreviousValue::MustExistAndMatch(_) => s.record
                        == Some(Err::<Updated, PreviousError>(PreviousError::DidNotExist)),
                    _ => s.record is None,
                },
                Current::Symbolic => s.symbolic && s.apply == (guard_spec(previous, None) is None),
                Current::Direct(o) => !s.symbolic && match guard_spec(previous, Some(o)) {
                    None => s.apply && (s.record matches Some(
                        Ok(Updated::Deleted { name: n, previous: p }),
                    ) && n@ == name@ && p == o),
                    Some(e) => !s.apply && s.record == Some(Err::<Updated, PreviousError>(e)),
                },
            },
        },
{
    match update {
        Update::Write { name, target, previous } => {
            let given = match current {
                Current::Direct(o) => Some(o),
                _ => None,
            };
            match previous.guard(given) {
                None => Step {
                    apply: true,
                    symbolic: false,
                    record: Some(Ok(Updated::Written { name: name.clone(), target: *target })),
                },
                Some(e) => Step { apply: false, symbolic: false, record: Some(Err(e)) },
            }
        },
        Update::Delete { name, previous } => match current {
            Current::Missing => match previous {
                PreviousValue::MustExist | PreviousValue::MustExistAndMatch(_) => Step {
                    apply: false,
                    symbolic: false,
                    record: Some(Err(PreviousError::DidNotExist)),
                },
                _ => Step { apply: false, symbolic: false, record: None },
            },
            Current::Symbolic => {
                let rejection = previous.guard(None);
                Step { apply: rejection.is_none(), symbolic: true, record: None }
            },
            Current::Direct(o) => match previous.guard(Some(o)) {
                None => Step {
                    apply: true,
                    symbolic: false,
                    record: Some(Ok(Updated::Deleted { name: name.clone(), previous: o })),
                },
                Some(e) => Step { apply: false, symbolic: false, record: Some(Err(e)) },
            },
        },
    }
}

impl Applied {
    /// Nothing applied, nothing rejected.
    pub fn new() -> (r: Self)
        ensures
            r.updates@.len() == 0,
            r.rejections@.len() == 0,
    {
        Applied { updates: Vec::new(), rejections: Vec::new() }
    }

    /// Records the outcome of an update: an applied update, or a rejection.
    pub fn record(&mut self, outcome: Result<Updated, PreviousError>)
        ensures
            outcome matches Ok(u) ==> final(self).updates@ == old(self).updates@.push(u)
                && final(self).rejections@ == old(self).rejections@,
            outcome matches Err(e) ==> final(self).rejections@ == old(self).rejections@.push(e)
                && final(self).updates@ == old(self).updates@,
    {
        match outcome {
            Ok(u) => self.updates.push(u),
            Err(e) => self.rejections.push(e),
        }
    }
}

// ---------------------------------------------------------------------------
// The transaction
// ---------------------------------------------------------------------------

/// The name of the reference an update changes.
pub open spec fn update_name(u: Update) -> String {
    match u {
        Update::Write { name, .. } => name,
        Update::Delete { name, .. } => name,
    }
}

/// The rejection recorded for an update that does not go ahead on a
/// reference whose current value is `current`, if any.
pub open spec fn rejection_of(u: Update, current: Current) -> Option<Result<Updated, PreviousError>> {
    match u {
        Update::Write { previous, .. } => match guard_spec(previous, target_of(current)) {
            Some(e) => Some(Err(e)),
            None => None,
        },
        Update::Delete { previous, .. } => match current {
            Current::Missing => match previous {
                PreviousValue::MustExist | PreviousValue::MustExistAndMatch(_) => Some(
                    Err(PreviousError::DidNotExist),
                ),
                _ => None,
            },
            Current::Symbolic => None,
            Current::Direct(o) => match guard_spec(previous, Some(o)) {
                Some(e) => Some(Err(e)),
                None => None,
            },
        },
    }
}

/// What a transaction waits for next.
#[derive(Debug, Clone, Copy, PartialEq, Eq)]
pub enum TxnAwait {
    /// The transaction to be opened.
    Begin,
    /// The lock of the current update's reference.
    Lock,
    /// The current value of that reference.
    Read,
    /// The write or removal of that reference.
    Change,
    /// The commit of the transaction.
    Commit,
    /// Nothing: the transaction is over.
    Over,
}

/// What the git transaction reports back, in the order it is asked.
#[derive(Debug)]
pub enum TxnEvent {
    /// The transaction was opened, or git's error.
    Opened(Result<(), String>),
    /// The reference was locked, or git's error.
    Locked(Result<(), String>),
    /// The reference's current value, or why it could not be read.
    Read(Result<Current, String>),
    /// The reference was written or removed, or git's error.
    Changed(Result<(), String>),
    /// The transaction was committed, or git's error.
    Committed(Result<(), String>),
}

/// What the git transaction is asked to do next.
#[derive(Debug, Clone)]
pub enum TxnAction {
    /// Lock the reference.
    Lock(String),
    /// Read the reference's current value.
    Read(String),
    /// Point the reference to the object.
    Write(String, Oid),
    /// Remove the reference.
    Remove(String),
    /// Commit the transaction.
    Commit,
    /// Drop the transaction: it failed with this error.
    Fail(Txn),
    /// The transaction is committed; the outcome is in `applied`.
    Done,
}

/// A transaction that applies a list of updates in order, one reference at a
/// time: lock it, read it, decide (`plan`), change it if the guard allows,
/// record the outcome. It commits only once every update went through, and
/// stops at the first git error, or at a symbolic reference to delete.
#[derive(Debug)]
pub struct TxnRun {
    /// The update being worked on.
    pub at: usize,
    /// What the transaction waits for.
    pub awaiting: TxnAwait,
    /// The current update fails the transaction once its change is made.
    pub symbolic: bool,
    /// The outcome recorded for the current update once its change is made.
    pub pending: Option<Result<Updated, PreviousError>>,
    /// The outcomes so far.
    pub applied: Applied,
}

/// The event is the answer to what `awaiting` asked.
pub open spec fn answers(awaiting: TxnAwait, event: TxnEvent) -> bool {
    match event {
        TxnEvent::Opened(_) => awaiting == TxnAwait::Begin,
        TxnEvent::Locked(_) => awaiting == TxnAwait::Lock,
        TxnEvent::Read(_) => awaiting == TxnAwait::Read,
        TxnEvent::Changed(_) => awaiting == TxnAwait::Change,
        TxnEvent::Committed(_) => awaiting == TxnAwait::Commit,
    }
}

/// The outcomes after `record` is added to them.
pub open spec fn with_record(
    updates: Seq<Updated>,
    rejections: Seq<PreviousError>,
    record: Option<Result<Updated, PreviousError>>,
) -> (Seq<Updated>, Seq<PreviousError>) {
    match record {
        Some(Ok(u)) => (updates.push(u), rejections),
        Some(Err(e)) => (updates, rejections.push(e)),
        None => (updates, rejections),
    }
}

impl TxnRun {
    /// The run is in a state its steps keep.
    pub open spec fn wf(&self, updates: Seq<Update>) -> bool {
        &&& self.at <= updates.len()
        &&& (self.awaiting == TxnAwait::Lock || self.awaiting == TxnAwait::Read || self.awaiting
            == TxnAwait::Change) ==> self.at < updates.len()
    }

    /// The run asks for update `i` to be worked on: its reference locked, or
    /// the commit once every update is done.
    pub open spec fn begins(&self, updates: Seq<Update>, i: int, a: TxnAction) -> bool {
        &&& self.at == i
        &&& if i < updates.len() {
            self.awaiting == TxnAwait::Lock && (a matches TxnAction::Lock(n) && n@ == update_name(
                updates[i],
            )@)
        } else {
            self.awaiting == TxnAwait::Commit && a is Commit
        }
    }

    /// The run is over with a failure.
    pub open spec fn fails(&self, a: TxnAction) -> bool {
        self.awaiting == TxnAwait::Over && a is Fail
    }

    /// A transaction that is not yet opened, with nothing applied.
    pub fn new() -> (r: Self)
        ensures
            r.at == 0,
            r.awaiting == TxnAwait::Begin,
            r.applied.updates@.len() == 0,
            r.applied.rejections@.len() == 0,
    {
        TxnRun { at: 0, awaiting: TxnAwait::Begin, symbolic: false, pending: None, applied: Applied::new() }
    }

    fn begin(&mut self, updates: &[Update], i: usize) -> (a: TxnAction)
        requires
            i <= updates@.len(),
        ensures
            final(self).begins(updates@, i as int, a),
            final(self).wf(updates@),
            final(self).applied == old(self).applied,
    {
        self.at = i;
        if i < updates.len() {
            self.awaiting = TxnAwait::Lock;
            let name = match &updates[i] {
                Update::Write { name, .. } => name.clone(),
                Update::Delete { name, .. } => name.clone(),
            };
            TxnAction::Lock(name)
        } else {
            self.awaiting = TxnAwait::Commit;
            TxnAction::Commit
        }
    }

    fn finish(&mut self, updates: &[Update], symbolic: bool, record: Option<Result<Updated, PreviousError>>) -> (a: TxnAction)
        requires
            old(self).at < updates@.len(),
        ensures
            symbolic ==> final(self).awaiting == TxnAwait::Over && (a matches TxnAction::Fail(
                Txn::SymbolicRef(_),
            )) && final(self).applied == old(self).applied,
            !symbolic ==> final(self).begins(updates@, old(self).at + 1, a) && (final(self).applied.updates@,
            final(self).applied.rejections@) == with_record(
                old(self).applied.updates@,
                old(self).applied.rejections@,
                record,
            ),
            final(self).wf(updates@),
    {
        if symbolic {
            self.awaiting = TxnAwait::Over;
            return TxnAction::Fail(Txn::SymbolicRef(SymbolicRef));
        }
        assert(self.at < updates.len());
        let next = self.at + 1;
        match record {
            Some(o) => self.applied.record(o),
            None => {},
        }
        self.begin(updates, next)
    }

    /// Takes the transaction one step on: from what git reported for the last
    /// action to the next action. A git error ends the run with the matching
    /// `Txn` error, which carries git's message; the commit is asked for only
    /// after the last update.
    pub fn step(&mut self, updates: &[Update], event: TxnEvent) -> (a: TxnAction)
        requires
            old(self).wf(updates@),
            answers(old(self).awaiting, event),
        ensures
            final(self).wf(updates@),
            a is Commit ==> final(self).at == updates@.len(),
            a is Done ==> old(self).awaiting == TxnAwait::Commit,
            match event {
                TxnEvent::Opened(Err(e)) => final(self).awaiting == TxnAwait::Over && a == TxnAction::Fail(
                    Txn::Acquire(e),
                ),
                TxnEvent::Opened(Ok(())) => final(self).begins(updates@, 0, a) && final(self).applied
                    == old(self).applied,
                TxnEvent::Locked(Err(e)) => final(self).awaiting == TxnAwait::Over && (a matches TxnAction::Fail(
                    Txn::Lock { refname, source },
                ) && refname@ == update_name(updates@[old(self).at as int])@ && source == e),
                TxnEvent::Locked(Ok(())) => final(self).awaiting == TxnAwait::Read && final(self).at
                    == old(self).at && final(self).applied == old(self).applied && (a matches TxnAction::Read(
                    n,
                ) && n@ == update_name(updates@[old(self).at as int])@),
                TxnEvent::Read(Err(e)) => final(self).awaiting == TxnAwait::Over && a == TxnAction::Fail(
                    Txn::Read(e),
                ),
                TxnEvent::Read(Ok(current)) => {
                    let u = updates@[old(self).at as int];
                    let apply = match u {
                        Update::Write { previous, .. } => guard_spec(previous, target_of(current)) is None,
                        Update::Delete { previous, .. } => match current {
                            Current::Missing => false,
                            Current::Symbolic => guard_spec(previous, None) is None,
                            Current::Direct(o) => guard_spec(previous, Some(o)) is None,
                        },
                    };
                    if apply {
                        &&& final(self).awaiting == TxnAwait::Change
                        &&& final(self).at == old(self).at
                        &&& final(self).applied == old(self).applied
                        &&& match u {
                            Update::Write { name, target, .. } => (a matches TxnAction::Write(n, t) && n@
                                == name@ && t == target) && !final(self).symbolic && (final(self).pending matches Some(Ok(Updated::Written { name: n, target: t })) && n@ == name@
                                && t == target),
                            Update::Delete { name, .. } => (a matches TxnAction::Remove(n) && n@ == name@)
                                && match current {
                                Current::Direct(o) => !final(self).symbolic && (final(self).pending matches Some(Ok(Updated::Deleted { name: n, previous: p })) && n@
                                    == name@ && p == o),
                                _ => final(self).symbolic,
                            },
                        }
                    } else if u is Delete && current is Symbolic {
                        final(self).fails(a) && a matches TxnAction::Fail(Txn::SymbolicRef(_))
                    } else {
                        final(self).begins(updates@, old(self).at + 1, a) && (final(self).applied.updates@,
                        final(self).applied.rejections@) == with_record(
                            old(self).applied.updates@,
                            old(self).applied.rejections@,
                            rejection_of(u, current),
                        )
                    }
                },
                TxnEvent::Changed(Err(e)) => final(self).awaiting == TxnAwait::Over && match updates@[old(self).at as int] {
                    Update::Write { name, target, .. } => a matches TxnAction::Fail(
                        Txn::Write { refname, target: t, source },
                    ) && refname@ == name@ && t == target && source == e,
                    Update::Delete { name, .. } => a matches TxnAction::Fail(Txn::Delete { refname, source })
                        && refname@ == name@ && source == e,
                },
                TxnEvent::Changed(Ok(())) => if old(self).symbolic {
                    final(self).fails(a) && a matches TxnAction::Fail(Txn::SymbolicRef(_))
                } else {
                    final(self).begins(updates@, old(self).at + 1, a) && (final(self).applied.updates@,
                    final(self).applied.rejections@) == with_record(
                        old(self).applied.updates@,
                        old(self).applied.rejections@,
                        old(self).pending,
                    )
                },
                TxnEvent::Committed(Err(e)) => final(self).awaiting == TxnAwait::Over && a == TxnAction::Fail(
                    Txn::Commit(e),
                ),
                TxnEvent::Committed(Ok(())) => final(self).awaiting == TxnAwait::Over && a is Done
                    && final(self).applied == old(self).applied,
            },
    {
        match event {
            TxnEvent::Opened(Err(e)) => {
                self.awaiting = TxnAwait::Over;
                TxnAction::Fail(Txn::Acquire(e))
            },
            TxnEvent::Opened(Ok(())) => self.begin(updates, 0),
            TxnEvent::Locked(Err(e)) => {
                self.awaiting = TxnAwait::Over;
                let refname = match &updates[self.at] {
                    Update::Write { name, .. } => name.clone(),
                    Update::Delete { name, .. } => name.clone(),
                };
                TxnAction::Fail(Txn::Lock { refname, source: e })
            },
            TxnEvent::Locked(Ok(())) => {
                self.awaiting = TxnAwait::Read;
                let name = match &updates[self.at] {
                    Update::Write { name, .. } => name.clone(),
                    Update::Delete { name, .. } => name.clone(),
                };
                TxnAction::Read(name)
            },
            TxnEvent::Read(Err(e)) => {
                self.awaiting = TxnAwait::Over;
                TxnAction::Fail(Txn::Read(e))
            },
            TxnEvent::Read(Ok(current)) => {
                let s = plan(&updates[self.at], current);
                if s.apply {
                    self.awaiting = TxnAwait::Change;
                    self.symbolic = s.symbolic;
                    self.pending = s.record;
                    match &updates[self.at] {
                        Update::Write { name, target, .. } => TxnAction::Write(name.clone(), *target),
                        Update::Delete { name, .. } => TxnAction::Remove(name.clone()),
                    }
                } else {
                    self.finish(updates, s.symbolic, s.record)
                }
            },
            TxnEvent::Changed(Err(e)) => {
                self.awaiting = TxnAwait::Over;
                match &updates[self.at] {
                    Update::Write { name, target, .. } => TxnAction::Fail(
                        Txn::Write { refname: name.clone(), target: *target, source: e },
                    ),
                    Update::Delete { name, .. } => TxnAction::Fail(Txn::Delete { refname: name.clone(), source: e }),
                }
            },
            TxnEvent::Changed(Ok(())) => {
                let symbolic = self.symbolic;
                let record = self.pending.take();
                self.finish(updates, symbolic, record)
            },
            TxnEvent::Committed(Err(e)) => {
                self.awaiting = TxnAwait::Over;
                TxnAction::Fail(Txn::Commit(e))
            },
            TxnEvent::Committed(Ok(())) => {
                self.awaiting = TxnAwait::Over;
                TxnAction::Done
            },
        }
    }
}

} // verus!
