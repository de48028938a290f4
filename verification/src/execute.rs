use vstd::prelude::*;

use crate::error::{Error, Ganzu, OsError};
use crate::file::{FileSnapshot, SnapshotV};

verus! {

// ---------------------------------------------------------------------------
// Re-verification (the staleness gate)
// ---------------------------------------------------------------------------

/// The decision for one manifest entry after re-capturing its file.
#[derive(Debug, Clone, PartialEq)]
pub enum Decision {
    /// The file's identity is unchanged since planning: proceed to apply.
    Proceed,
    /// The file changed, or its path no longer resolves: it is never
    /// touched.
    Stale,
    /// Re-capture failed for another reason (permissions, I/O); the error
    /// is kept for the report.
    RecaptureFailed(Error),
}

/// The decision the execution engine takes for a recorded snapshot and the
/// outcome of re-capturing the same path: proceed only on an exact identity
/// match; treat an unresolvable path as staleness; treat any other capture
/// failure as a failure of the entry.
pub open spec fn spec_reverify(recorded: SnapshotV, recapture: Ganzu<FileSnapshot>) -> Decision {
    match recapture {
        Ok(fresh) => if fresh@.same_identity(recorded) {
            Decision::Proceed
        } else {
            Decision::Stale
        },
        Err(e) => match e {
            Error::CanonicalizeFailed(_) => Decision::Stale,
            _ => Decision::RecaptureFailed(e),
        },
    }
}

/// Re-verifies one manifest entry: compares the freshly captured snapshot
/// (or capture failure) against the recorded one.
pub fn reverify(recorded: &FileSnapshot, recapture: Ganzu<FileSnapshot>) -> (d: Decision)
    ensures
        d == spec_reverify(recorded@, recapture),
{
    match recapture {
        Ok(fresh) => {
            if fresh.same_identity(recorded) {
                Decision::Proceed
            } else {
                Decision::Stale
            }
        },
        Err(e) => match e {
            Error::CanonicalizeFailed(o) => Decision::Stale,
            other => Decision::RecaptureFailed(other),
        },
    }
}

/// Staleness guard: a modification-time difference alone already forces the
/// skip decision, so a file that changed after planning is never touched.
pub proof fn lemma_staleness_guard(recorded: SnapshotV, fresh: FileSnapshot)
    requires
        fresh@.last_mtime != recorded.last_mtime,
    ensures
        spec_reverify(recorded, Ok(fresh)) == Decision::Stale,
        spec_entry_status(spec_reverify(recorded, Ok(fresh)), None) == EntryStatus::SkippedStale,
{
}

// ---------------------------------------------------------------------------
// Entry outcomes and the report
// ---------------------------------------------------------------------------

/// The terminal state of one manifest entry in an execution run.
#[derive(Debug, Clone, PartialEq)]
pub enum EntryStatus {
    /// The action was applied.
    Applied,
    /// The file was stale (or gone) and was left untouched.
    SkippedStale,
    /// Re-capture or the apply step failed; the error is retained.
    Failed(Error),
}

/// The terminal state an entry reaches from its re-verification decision
/// and, when the decision was to proceed, the apply step's outcome.
pub open spec fn spec_entry_status(d: Decision, apply_result: Option<Ganzu<()>>) -> EntryStatus {
    match d {
        Decision::Proceed => match apply_result {
            Some(Ok(_)) => EntryStatus::Applied,
            Some(Err(e)) => EntryStatus::Failed(e),
            None => vstd::pervasive::arbitrary(),
        },
        Decision::Stale => EntryStatus::SkippedStale,
        Decision::RecaptureFailed(e) => EntryStatus::Failed(e),
    }
}

/// Combines the re-verification decision with the apply outcome.  The apply
/// step runs exactly when the decision was to proceed, so a stale entry can
/// never carry an apply outcome.
pub fn entry_status(d: Decision, apply_result: Option<Ganzu<()>>) -> (s: EntryStatus)
    requires
        (d is Proceed) <==> (apply_result is Some),
    ensures
        s == spec_entry_status(d, apply_result),
{
    match d {
        Decision::Proceed => match apply_result {
            Some(Ok(_)) => EntryStatus::Applied,
            Some(Err(e)) => EntryStatus::Failed(e),
            None => {
                proof {
                    assert(false);
                }
                EntryStatus::SkippedStale
            },
        },
        Decision::Stale => EntryStatus::SkippedStale,
        Decision::RecaptureFailed(e) => EntryStatus::Failed(e),
    }
}

pub open spec fn count_applied(s: Seq<EntryStatus>) -> int
    decreases s.len(),
{
    if s.len() == 0 {
        0
    } else {
        count_applied(s.drop_last()) + if s.last() is Applied {
            1int
        } else {
            0int
        }
    }
}

pub open spec fn count_skipped(s: Seq<EntryStatus>) -> int
    decreases s.len(),
{
    if s.len() == 0 {
        0
    } else {
        count_skipped(s.drop_last()) + if s.last() is SkippedStale {
            1int
        } else {
            0int
        }
    }
}

pub open spec fn count_failed(s: Seq<EntryStatus>) -> int
    decreases s.len(),
{
    if s.len() == 0 {
        0
    } else {
        count_failed(s.drop_last()) + if s.last() is Failed {
            1int
        } else {
            0int
        }
    }
}

/// The report of one execution run: the per-entry terminal states in
/// manifest order, with running counts of each partition.
#[derive(Debug, Clone, PartialEq)]
pub struct DoReport {
    pub applied: usize,
    pub skipped_stale: usize,
    pub failed: usize,
    pub statuses: Vec<EntryStatus>,
}

impl DoReport {
    /// The counts agree with the recorded statuses.
    pub open spec fn wf(self) -> bool {
        &&& self.applied == count_applied(self.statuses@)
        &&& self.skipped_stale == count_skipped(self.statuses@)
        &&& self.failed == count_failed(self.statuses@)
        &&& self.applied + self.skipped_stale + self.failed == self.statuses@.len()
    }

    /// An empty report.
    pub fn new() -> (r: DoReport)
        ensures
            r.wf(),
            r.statuses@.len() == 0,
    {
        DoReport { applied: 0, skipped_stale: 0, failed: 0, statuses: Vec::new() }
    }

    /// Records one entry's terminal state.  One entry's failure never halts
    /// the run: the caller simply keeps recording the remaining entries.
    pub fn record(&mut self, s: EntryStatus)
        requires
            old(self).wf(),
            old(self).statuses@.len() < usize::MAX,
        ensures
            final(self).wf(),
            final(self).statuses@ == old(self).statuses@.push(s),
    {
        proof {
            assert(old(self).statuses@.push(s).drop_last() =~= old(self).statuses@);
        }
        match &s {
            EntryStatus::Applied => {
                self.applied = self.applied + 1;
            },
            EntryStatus::SkippedStale => {
                self.skipped_stale = self.skipped_stale + 1;
            },
            EntryStatus::Failed(_) => {
                self.failed = self.failed + 1;
            },
        }
        self.statuses.push(s);
    }
}

// ---------------------------------------------------------------------------
// Cross-device move fallback
// ---------------------------------------------------------------------------

/// The outcome of the copy phase of a cross-filesystem move (a move that
/// cannot be a plain rename is a copy followed, only on full success, by
/// deletion of the source).
#[derive(Debug, Clone, PartialEq)]
pub enum CopyPhase {
    /// The copy completed and the destination's size and identity verified
    /// against the source.
    CopiedVerified,
    /// The copy itself failed.
    CopyFailed(OsError),
    /// The copy completed but the destination did not verify against the
    /// source.
    VerifyMismatch,
}

/// What a cross-filesystem move does after its copy phase.
#[derive(Debug, Clone, PartialEq)]
pub enum MoveConclusion {
    /// The destination verified: the source may now be deleted.
    RemoveSource,
    /// The copy phase did not fully succeed: the source is kept untouched
    /// and the entry fails with the retained error.
    KeepSource(Error),
}

/// Concludes a cross-filesystem move: the source is released for deletion
/// exactly when the copy completed and verified; any copy-phase failure
/// keeps the source untouched and fails the entry.
pub fn cross_device_conclude(source: &String, phase: CopyPhase) -> (r: MoveConclusion)
    ensures
        (r is RemoveSource) <==> (phase is CopiedVerified),
        phase matches CopyPhase::CopyFailed(o) ==> (r matches MoveConclusion::KeepSource(e) && (
        e matches Error::ApplyFailed { path, error } && path@ == source@ && error == o)),
        phase is VerifyMismatch ==> (r matches MoveConclusion::KeepSource(e) && (e matches
            Error::ApplyFailed { path, error } && path@ == source@)),
{
    match phase {
        CopyPhase::CopiedVerified => MoveConclusion::RemoveSource,
        CopyPhase::CopyFailed(o) => MoveConclusion::KeepSource(
            Error::ApplyFailed { path: source.clone(), error: o },
        ),
        CopyPhase::VerifyMismatch => MoveConclusion::KeepSource(
            Error::ApplyFailed {
                path: source.clone(),
                error: OsError { code: 0, message: "cross-device copy did not verify".to_owned() },
            },
        ),
    }
}

} // verus!
