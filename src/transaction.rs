use vstd::prelude::*;
use crate::snapshot::ImportError;

verus! {

/// Where the import of one domain's rows into its database stands.
#[derive(Clone, Copy, Debug, PartialEq, Eq, Structural)]
pub enum Phase {
    /// The transaction is being opened.
    Opening,
    /// Row number `.0` is being written.
    Writing(usize),
    /// Every row was written; the transaction is being committed.
    Committing,
    /// The import is over.
    Ended,
}

/// What the database side is to do next.
#[derive(Clone, Debug)]
pub enum Action {
    /// Open a transaction.
    Begin,
    /// Write row number `.0` of the snapshot within the transaction.
    Write(usize),
    /// Commit the transaction.
    Commit,
    /// Roll back the transaction, if one is open, and report the error.
    Abort(ImportError),
    /// Report that this many rows were committed.
    Done(usize),
}

/// The decisions of one domain's import: rows are written in snapshot
/// order inside one transaction, which is committed only after every row
/// was written; the first refusal of the database rolls everything back.
pub struct ImportRun {
    rows: usize,
    phase: Phase,
}

/// The step of an import of `rows` rows that stands in `phase`, after the
/// database did the last action (`Ok`) or refused it with a message.
pub open spec fn transition(rows: nat, phase: Phase, outcome: Result<(), String>) -> (Phase, Action) {
    match outcome {
        Err(m) => (Phase::Ended, Action::Abort(ImportError::Storage(m))),
        Ok(()) => match phase {
            Phase::Opening => if rows == 0 {
                (Phase::Committing, Action::Commit)
            } else {
                (Phase::Writing(0), Action::Write(0))
            },
            Phase::Writing(i) => if i + 1 < rows {
                (Phase::Writing((i + 1) as usize), Action::Write((i + 1) as usize))
            } else {
                (Phase::Committing, Action::Commit)
            },
            Phase::Committing => (Phase::Ended, Action::Done(rows as usize)),
            Phase::Ended => (Phase::Ended, Action::Done(rows as usize)),
        },
    }
}

impl ImportRun {
    /// The number of rows to write.
    pub closed spec fn spec_rows(&self) -> nat {
        self.rows as nat
    }

    /// Where the import stands.
    pub closed spec fn spec_phase(&self) -> Phase {
        self.phase
    }

    pub closed spec fn wf(&self) -> bool {
        self.phase matches Phase::Writing(i) ==> i < self.rows
    }

    /// Starts the import of `rows` rows: the first thing to do is to open a
    /// transaction.
    pub fn start(rows: usize) -> (r: (ImportRun, Action))
        ensures
            r.0.wf(),
            r.0.spec_rows() == rows,
            r.0.spec_phase() == Phase::Opening,
            r.1 is Begin,
    {
        (ImportRun { rows, phase: Phase::Opening }, Action::Begin)
    }

    /// Where the import stands.
    pub fn phase(&self) -> (p: Phase)
        ensures
            p == self.spec_phase(),
    {
        self.phase
    }

    /// The next thing to do, once the database did the last action or
    /// refused it.
    pub fn next(&mut self, outcome: Result<(), String>) -> (a: Action)
        requires
            old(self).wf(),
            old(self).spec_phase() != Phase::Ended,
        ensures
            final(self).wf(),
            final(self).spec_rows() == old(self).spec_rows(),
            (final(self).spec_phase(), a) == transition(
                old(self).spec_rows(),
                old(self).spec_phase(),
                outcome,
            ),
    {
        match outcome {
            Err(m) => {
                self.phase = Phase::Ended;
                Action::Abort(ImportError::Storage(m))
            },
            Ok(()) => match self.phase {
                Phase::Opening => if self.rows == 0 {
                    self.phase = Phase::Committing;
                    Action::Commit
                } else {
                    self.phase = Phase::Writing(0);
                    Action::Write(0)
                },
                Phase::Writing(i) => if i + 1 < self.rows {
                    self.phase = Phase::Writing(i + 1);
                    Action::Write(i + 1)
                } else {
                    self.phase = Phase::Committing;
                    Action::Commit
                },
                Phase::Committing => {
                    self.phase = Phase::Ended;
                    Action::Done(self.rows)
                },
                Phase::Ended => Action::Done(self.rows),
            },
        }
    }
}

/// The actions an import of `rows` rows asks for when the database carries
/// out every one of them: open, write each row once in order, commit.
pub open spec fn smooth_actions(rows: nat, k: nat) -> Action {
    if k == 0 {
        Action::Begin
    } else if k <= rows {
        Action::Write((k - 1) as usize)
    } else if k == rows + 1 {
        Action::Commit
    } else {
        Action::Done(rows as usize)
    }
}

/// The phase an import of `rows` rows stands in after the database carried
/// out its first `k` actions.
pub open spec fn smooth_phase(rows: nat, k: nat) -> Phase {
    if k == 0 {
        Phase::Opening
    } else if k <= rows {
        Phase::Writing((k - 1) as usize)
    } else if k == rows + 1 {
        Phase::Committing
    } else {
        Phase::Ended
    }
}

/// When the database carries out every action, each step asks for the next
/// action of the sequence open, write row 0, ..., write the last row,
/// commit; nothing is committed before the last row is written.
pub proof fn lemma_commit_after_every_row(rows: nat, k: nat)
    requires
        k <= rows + 1,
        rows < usize::MAX,
    ensures
        transition(rows, smooth_phase(rows, k), Ok(())) == (
            smooth_phase(rows, k + 1),
            smooth_actions(rows, k + 1),
        ),
{
}

} // verus!
