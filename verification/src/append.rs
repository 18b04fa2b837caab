//! The durable append: one line is added to a file under the protection of
//! a backup copy, so that the file ends up either with the line or as it
//! was.
//!
//! The library decides and the caller acts. A [`Phase`] names the one
//! operation on the file system that is due; the caller performs it and
//! reports how it went, and the phase that follows says what is due next.
//! What the protocol achieves is stated over [`Disk`], a model of the two
//! files involved, in [`lemma_append_is_atomic`].

use vstd::prelude::*;
use vstd::string::*;
use vstd::utf8::*;

verus! {

/// The byte that ends a line.
pub const LINE_FEED: u8 = 10;

/// How a protected append can fail.
#[derive(Clone, Copy, Debug, PartialEq, Eq, Structural)]
pub enum AppendError {
    /// The backup copy could not be made. Nothing was written.
    BackupFailed,
    /// The line could not be written. The file is as it was.
    AppendFailed,
    /// The line could not be written, and the file could not be brought
    /// back from its backup or the backup could not be removed afterwards.
    RestoreFailed,
    /// The line was written, but the backup could not be removed.
    CleanupFailed,
}

/// How bad a failed append is.
#[derive(Clone, Copy, Debug, PartialEq, Eq, Structural)]
pub enum Severity {
    /// The line is in the file; only a stray backup may be left.
    Warning,
    /// The line is not in the file, and the file is as it was.
    Error,
    /// What the file holds is not known and has to be looked at by hand.
    Critical,
}

impl AppendError {
    /// How the failure is to be weighed: `CleanupFailed` is a warning,
    /// `RestoreFailed` is critical, the others are plain errors.
    pub open spec fn weight(self) -> Severity {
        match self {
            AppendError::CleanupFailed => Severity::Warning,
            AppendError::RestoreFailed => Severity::Critical,
            AppendError::BackupFailed => Severity::Error,
            AppendError::AppendFailed => Severity::Error,
        }
    }

    /// How the failure is to be weighed by whoever reports it.
    pub fn severity(&self) -> (severity: Severity)
        ensures
            severity == self.weight(),
    {
        match self {
            AppendError::CleanupFailed => Severity::Warning,
            AppendError::RestoreFailed => Severity::Critical,
            AppendError::BackupFailed => Severity::Error,
            AppendError::AppendFailed => Severity::Error,
        }
    }
}

/// Whether an append that ended with `outcome` has put its line into the
/// file: it has where it succeeded, and where all that failed was the
/// removal of the backup.
pub open spec fn has_written(outcome: Result<(), AppendError>) -> bool {
    match outcome {
        Ok(()) => true,
        Err(error) => error.weight() == Severity::Warning,
    }
}

/// Whether an append that ended with `outcome` has put its line into the
/// file.
pub fn is_written(outcome: Result<(), AppendError>) -> (written: bool)
    ensures
        written == has_written(outcome),
{
    match outcome {
        Ok(()) => true,
        Err(error) => match error.severity() {
            Severity::Warning => true,
            _ => false,
        },
    }
}

/// An operation on the file system that the caller performs.
#[derive(Clone, Copy, Debug, PartialEq, Eq)]
pub enum Action {
    /// Find out whether the target file exists.
    Probe,
    /// Copy the target file to the backup path.
    Backup,
    /// Open the target for appending, creating it if it is absent, and
    /// write the record.
    Write,
    /// Copy the backup over the target.
    Restore,
    /// Delete the backup.
    RemoveBackup,
    /// Nothing is left to do: the append ended in this way.
    Finish(Result<(), AppendError>),
}

/// Where a protected append stands.
#[derive(Clone, Copy, Debug, PartialEq, Eq)]
pub enum Phase {
    /// Nothing has been done yet.
    Probing,
    /// The target exists and is being copied to the backup path.
    BackingUp,
    /// The record is being written; `protected` says whether a backup
    /// stands behind the target.
    Writing { protected: bool },
    /// The record is written and the backup is being removed.
    Cleaning,
    /// The write failed and the backup is being copied back.
    Restoring,
    /// The target is restored and the backup is being removed.
    Clearing,
    /// The append has ended.
    Finished(Result<(), AppendError>),
}

/// The path of the backup that protects `path`: the path itself with
/// `.bak` behind it.
pub open spec fn backup_path_of(path: Seq<char>) -> Seq<char> {
    path + seq!['.', 'b', 'a', 'k']
}

/// The bytes that one append adds to the file: the text in UTF-8 and one
/// line feed.
pub open spec fn record_of(text: Seq<char>) -> Seq<u8> {
    encode_utf8(text).push(10u8)
}

impl Phase {
    /// The operation that is due in this phase.
    pub open spec fn pending(self) -> Action {
        match self {
            Phase::Probing => Action::Probe,
            Phase::BackingUp => Action::Backup,
            Phase::Writing { .. } => Action::Write,
            Phase::Cleaning => Action::RemoveBackup,
            Phase::Restoring => Action::Restore,
            Phase::Clearing => Action::RemoveBackup,
            Phase::Finished(outcome) => Action::Finish(outcome),
        }
    }

    /// The phase that follows when the pending operation went as `positive`
    /// says: for `Probe`, that the target exists; for the others, that the
    /// operation succeeded.
    pub open spec fn next(self, positive: bool) -> Phase {
        match self {
            Phase::Probing => if positive {
                Phase::BackingUp
            } else {
                Phase::Writing { protected: false }
            },
            Phase::BackingUp => if positive {
                Phase::Writing { protected: true }
            } else {
                Phase::Finished(Err(AppendError::BackupFailed))
            },
            Phase::Writing { protected } => if positive {
                if protected {
                    Phase::Cleaning
                } else {
                    Phase::Finished(Ok(()))
                }
            } else {
                if protected {
                    Phase::Restoring
                } else {
                    Phase::Finished(Err(AppendError::AppendFailed))
                }
            },
            Phase::Cleaning => if positive {
                Phase::Finished(Ok(()))
            } else {
                Phase::Finished(Err(AppendError::CleanupFailed))
            },
            Phase::Restoring => if positive {
                Phase::Clearing
            } else {
                Phase::Finished(Err(AppendError::RestoreFailed))
            },
            Phase::Clearing => if positive {
                Phase::Finished(Err(AppendError::AppendFailed))
            } else {
                Phase::Finished(Err(AppendError::RestoreFailed))
            },
            Phase::Finished(outcome) => Phase::Finished(outcome),
        }
    }

    /// The largest number of operations that can still be due before the
    /// append ends.
    pub open spec fn steps_left(self) -> nat {
        match self {
            Phase::Probing => 5,
            Phase::BackingUp => 4,
            Phase::Writing { .. } => 3,
            Phase::Restoring => 2,
            Phase::Cleaning => 1,
            Phase::Clearing => 1,
            Phase::Finished(_) => 0,
        }
    }

    /// The phase in which every append begins.
    pub fn start() -> (phase: Phase)
        ensures
            phase == Phase::Probing,
    {
        Phase::Probing
    }

    /// The operation that the caller is to perform now.
    pub fn action(&self) -> (action: Action)
        ensures
            action == self.pending(),
    {
        match self {
            Phase::Probing => Action::Probe,
            Phase::BackingUp => Action::Backup,
            Phase::Writing { .. } => Action::Write,
            Phase::Cleaning => Action::RemoveBackup,
            Phase::Restoring => Action::Restore,
            Phase::Clearing => Action::RemoveBackup,
            Phase::Finished(outcome) => Action::Finish(*outcome),
        }
    }

    /// How the append ended, once it has.
    pub fn outcome(&self) -> (outcome: Option<Result<(), AppendError>>)
        ensures
            outcome == match *self {
                Phase::Finished(result) => Some(result),
                _ => None::<Result<(), AppendError>>,
            },
    {
        match self {
            Phase::Finished(result) => Some(*result),
            _ => None,
        }
    }

    /// Takes the report on the pending operation and moves on: `positive`
    /// says, for `Probe`, that the target exists, and for any other
    /// operation that it succeeded. Each report brings the end nearer; once
    /// the append has ended, reports change nothing.
    pub fn advance(self, positive: bool) -> (after: Phase)
        ensures
            after == self.next(positive),
            self !is Finished ==> after.steps_left() < self.steps_left(),
    {
        match self {
            Phase::Probing => if positive {
                Phase::BackingUp
            } else {
                Phase::Writing { protected: false }
            },
            Phase::BackingUp => if positive {
                Phase::Writing { protected: true }
            } else {
                Phase::Finished(Err(AppendError::BackupFailed))
            },
            Phase::Writing { protected } => if positive {
                if protected {
                    Phase::Cleaning
                } else {
                    Phase::Finished(Ok(()))
                }
            } else {
                if protected {
                    Phase::Restoring
                } else {
                    Phase::Finished(Err(AppendError::AppendFailed))
                }
            },
            Phase::Cleaning => if positive {
                Phase::Finished(Ok(()))
            } else {
                Phase::Finished(Err(AppendError::CleanupFailed))
            },
            Phase::Restoring => if positive {
                Phase::Clearing
            } else {
                Phase::Finished(Err(AppendError::RestoreFailed))
            },
            Phase::Clearing => if positive {
                Phase::Finished(Err(AppendError::AppendFailed))
            } else {
                Phase::Finished(Err(AppendError::RestoreFailed))
            },
            Phase::Finished(outcome) => Phase::Finished(outcome),
        }
    }
}

/// The path at which the backup of `path` is kept while an append is under
/// way. It is never the path itself.
pub fn backup_path(path: &str) -> (backup: String)
    ensures
        backup@ == backup_path_of(path@),
        backup@ != path@,
{
    let mut backup = path.to_owned();
    proof {
        reveal_strlit(".bak");
    }
    backup.append(".bak");
    backup
}

/// Every file has a backup path of its own: two paths that share a backup
/// path are one path.
pub proof fn lemma_backup_path_is_its_own(first: Seq<char>, second: Seq<char>)
    requires
        backup_path_of(first) == backup_path_of(second),
    ensures
        first == second,
{
    let suffix = seq!['.', 'b', 'a', 'k'];
    assert(first =~= (first + suffix).take(first.len() as int));
    assert(second =~= (second + suffix).take(second.len() as int));
}

/// The bytes to write for the line `text`: the text and one line feed.
pub fn line_record(text: &str) -> (record: Vec<u8>)
    ensures
        record@ == record_of(text@),
{
    let mut record = text.as_bytes_vec();
    record.push(LINE_FEED);
    record
}

/// The two files that an append touches, as far as the protocol cares: what
/// each holds, or `None` where it does not exist.
pub struct Disk {
    pub target: Option<Seq<u8>>,
    pub backup: Option<Seq<u8>>,
}

/// What a file holds when it is opened for appending: its content, or
/// nothing where it is only now created.
pub open spec fn content_of(file: Option<Seq<u8>>) -> Seq<u8> {
    match file {
        Some(content) => content,
        None => Seq::empty(),
    }
}

/// What the file system is taken to do: whether operation `action`, begun on
/// `before`, can be reported as `positive` and leave `after`.
///
/// The answer to a probe is true to the disk. An operation that succeeds
/// has done its work and nothing else. One that fails has left alone the
/// file that it only reads or does not name, and may have left anything in
/// the file that it writes.
pub open spec fn may_yield(
    action: Action,
    before: Disk,
    record: Seq<u8>,
    positive: bool,
    after: Disk,
) -> bool {
    match action {
        Action::Probe => after == before && positive == before.target.is_some(),
        Action::Backup => {
            &&& after.target == before.target
            &&& positive ==> before.target.is_some() && after.backup == before.target
        },
        Action::Write => {
            &&& after.backup == before.backup
            &&& positive ==> after.target == Some(content_of(before.target) + record)
        },
        Action::Restore => {
            &&& after.backup == before.backup
            &&& positive ==> before.backup.is_some() && after.target == before.backup
        },
        Action::RemoveBackup => {
            &&& after.target == before.target
            &&& positive ==> after.backup.is_none()
        },
        Action::Finish(_) => after == before,
    }
}

/// One turn of an append: how the pending operation was reported, and the
/// disk that it left.
pub struct Turn {
    pub positive: bool,
    pub disk: Disk,
}

/// Where an append that stands in `phase` on `disk` has got to after
/// `turns`; `None` where some turn is not one that the file system can
/// take.
pub open spec fn run(phase: Phase, disk: Disk, record: Seq<u8>, turns: Seq<Turn>) -> Option<
    (Phase, Disk),
>
    decreases turns.len(),
{
    if turns.len() == 0 {
        Some((phase, disk))
    } else if may_yield(phase.pending(), disk, record, turns[0].positive, turns[0].disk) {
        run(phase.next(turns[0].positive), turns[0].disk, record, turns.skip(1))
    } else {
        None
    }
}

/// What an append that began on `before` and ended with `outcome` has left
/// on `after`.
///
/// Success leaves the old content with the record behind it, and no backup
/// but one that was there before and never needed. After `AppendFailed`
/// the target is as it was and no backup of it is left. `BackupFailed`
/// leaves the target as it was, `CleanupFailed` leaves it with the record.
/// After `RestoreFailed` the target or the backup still holds the old
/// content.
pub open spec fn settled(
    before: Disk,
    record: Seq<u8>,
    outcome: Result<(), AppendError>,
    after: Disk,
) -> bool {
    match outcome {
        Ok(()) => {
            &&& after.target == Some(content_of(before.target) + record)
            &&& if before.target.is_some() {
                after.backup.is_none()
            } else {
                after.backup == before.backup
            }
        },
        Err(AppendError::AppendFailed) => {
            &&& before.target.is_some() ==> after.target == before.target
            &&& if before.target.is_some() {
                after.backup.is_none()
            } else {
                after.backup == before.backup
            }
        },
        Err(AppendError::BackupFailed) => {
            &&& before.target.is_some()
            &&& after.target == before.target
        },
        Err(AppendError::CleanupFailed) => {
            &&& before.target.is_some()
            &&& after.target == Some(content_of(before.target) + record)
        },
        Err(AppendError::RestoreFailed) => {
            &&& before.target.is_some()
            &&& after.target == before.target || after.backup == before.target
        },
    }
}

/// What holds of the disk in each phase of an append that began on
/// `before`.
pub open spec fn on_course(phase: Phase, before: Disk, record: Seq<u8>, now: Disk) -> bool {
    match phase {
        Phase::Probing => now == before,
        Phase::BackingUp => before.target.is_some() && now.target == before.target,
        Phase::Writing { protected } => if protected {
            &&& before.target.is_some()
            &&& now.target == before.target
            &&& now.backup == before.target
        } else {
            before.target.is_none() && now == before
        },
        Phase::Cleaning => {
            &&& before.target.is_some()
            &&& now.target == Some(content_of(before.target) + record)
        },
        Phase::Restoring => before.target.is_some() && now.backup == before.target,
        Phase::Clearing => before.target.is_some() && now.target == before.target,
        Phase::Finished(outcome) => settled(before, record, outcome, now),
    }
}

/// A turn that the file system can take keeps an append on course.
pub proof fn lemma_turn_keeps_course(
    phase: Phase,
    before: Disk,
    record: Seq<u8>,
    now: Disk,
    turn: Turn,
)
    requires
        on_course(phase, before, record, now),
        may_yield(phase.pending(), now, record, turn.positive, turn.disk),
    ensures
        on_course(phase.next(turn.positive), before, record, turn.disk),
{
}

/// Turns that the file system can take keep an append on course, however
/// many they are.
pub proof fn lemma_run_keeps_course(
    phase: Phase,
    before: Disk,
    record: Seq<u8>,
    now: Disk,
    turns: Seq<Turn>,
)
    requires
        on_course(phase, before, record, now),
        run(phase, now, record, turns).is_some(),
    ensures
        on_course(
            run(phase, now, record, turns).unwrap().0,
            before,
            record,
            run(phase, now, record, turns).unwrap().1,
        ),
    decreases turns.len(),
{
    if turns.len() > 0 {
        lemma_turn_keeps_course(phase, before, record, now, turns[0]);
        lemma_run_keeps_course(
            phase.next(turns[0].positive),
            before,
            record,
            turns[0].disk,
            turns.skip(1),
        );
    }
}

/// The append is atomic. Whatever the file system does within what
/// [`may_yield`] allows, and at whichever operation it fails, an append
/// that has run from the start to its end has left the disk as [`settled`]
/// says of its outcome: the target holds its old content and the record,
/// or its old content alone, and after success or `AppendFailed` on an
/// existing file no backup remains.
pub proof fn lemma_append_is_atomic(
    before: Disk,
    record: Seq<u8>,
    turns: Seq<Turn>,
    outcome: Result<(), AppendError>,
    after: Disk,
)
    requires
        run(Phase::Probing, before, record, turns) == Some((Phase::Finished(outcome), after)),
    ensures
        settled(before, record, outcome, after),
{
    lemma_run_keeps_course(Phase::Probing, before, record, before, turns);
}

/// Five reports end every append, whatever they say.
pub proof fn lemma_append_ends(phase: Phase, r1: bool, r2: bool, r3: bool, r4: bool, r5: bool)
    ensures
        phase.next(r1).next(r2).next(r3).next(r4).next(r5) is Finished,
{
}

} // verus!
