use lines::append::{
    backup_path, is_written, line_record, Action, AppendError, Phase, Severity,
};

/// The two files of an append, held in memory, with the operation that is
/// to fail, if any.
struct Disk {
    target: Option<Vec<u8>>,
    backup: Option<Vec<u8>>,
    failing: Vec<Action>,
    performed: Vec<Action>,
}

impl Disk {
    fn holding(target: Option<&[u8]>) -> Disk {
        Disk {
            target: target.map(|content| content.to_vec()),
            backup: None,
            failing: Vec::new(),
            performed: Vec::new(),
        }
    }

    fn failing_at(mut self, action: Action) -> Disk {
        self.failing.push(action);
        self
    }

    /// Performs `action` as a file system would, and reports on it.
    fn perform(&mut self, action: Action, record: &[u8]) -> bool {
        self.performed.push(action);
        let fails = self.failing.contains(&action);
        match action {
            Action::Probe => self.target.is_some(),
            Action::Backup => {
                if fails {
                    self.backup = Some(b"half a ba".to_vec());
                    return false;
                }
                self.backup = self.target.clone();
                self.target.is_some()
            }
            Action::Write => {
                let mut content = self.target.clone().unwrap_or_default();
                if fails {
                    content.extend_from_slice(&record[..record.len() / 2]);
                    self.target = Some(content);
                    return false;
                }
                content.extend_from_slice(record);
                self.target = Some(content);
                true
            }
            Action::Restore => {
                if fails {
                    self.target = Some(b"torn".to_vec());
                    return false;
                }
                self.target = self.backup.clone();
                self.backup.is_some()
            }
            Action::RemoveBackup => {
                if fails {
                    return false;
                }
                self.backup = None;
                true
            }
            Action::Finish(_) => unreachable!(),
        }
    }

    /// Runs one append of `text` to its end.
    fn append(&mut self, text: &str) -> Result<(), AppendError> {
        let record = line_record(text);
        let mut phase = Phase::start();
        let mut turns = 0;
        loop {
            match phase.action() {
                Action::Finish(outcome) => {
                    assert_eq!(phase.outcome(), Some(outcome));
                    return outcome;
                }
                action => {
                    assert_eq!(phase.outcome(), None);
                    let report = self.perform(action, &record);
                    phase = phase.advance(report);
                }
            }
            turns += 1;
            assert!(turns <= 5);
        }
    }
}

#[test]
fn a_record_is_the_text_and_one_line_feed() {
    assert_eq!(line_record("hello"), b"hello\n".to_vec());
    assert_eq!(line_record(""), b"\n".to_vec());
    assert_eq!(line_record("gr\u{fc}n"), "gr\u{fc}n\n".as_bytes().to_vec());
}

#[test]
fn the_backup_lies_beside_the_target_under_another_name() {
    assert_eq!(backup_path("/notes/2024_02_29.txt"), "/notes/2024_02_29.txt.bak");
    assert_eq!(backup_path("notes.bak"), "notes.bak.bak");
    assert_eq!(backup_path(""), ".bak");
    assert_ne!(backup_path("a.bak"), "a.bak");
}

#[test]
fn an_append_to_an_existing_file_adds_the_line_and_leaves_no_backup() {
    let mut disk = Disk::holding(Some(b"a\nb\n"));
    assert_eq!(disk.append("hello"), Ok(()));
    assert_eq!(disk.target, Some(b"a\nb\nhello\n".to_vec()));
    assert_eq!(disk.backup, None);
    assert_eq!(
        disk.performed,
        vec![Action::Probe, Action::Backup, Action::Write, Action::RemoveBackup]
    );
}

#[test]
fn an_append_to_a_missing_file_creates_it_without_a_backup() {
    let mut disk = Disk::holding(None);
    assert_eq!(disk.append("first"), Ok(()));
    assert_eq!(disk.target, Some(b"first\n".to_vec()));
    assert_eq!(disk.backup, None);
    assert_eq!(disk.performed, vec![Action::Probe, Action::Write]);
}

#[test]
fn a_failed_write_is_undone_from_the_backup() {
    let mut disk = Disk::holding(Some(b"x\n")).failing_at(Action::Write);
    assert_eq!(disk.append("lost line"), Err(AppendError::AppendFailed));
    assert_eq!(disk.target, Some(b"x\n".to_vec()));
    assert_eq!(disk.backup, None);
    assert_eq!(
        disk.performed,
        vec![
            Action::Probe,
            Action::Backup,
            Action::Write,
            Action::Restore,
            Action::RemoveBackup
        ]
    );
}

#[test]
fn a_failed_backup_stops_the_append_before_anything_is_written() {
    let mut disk = Disk::holding(Some(b"x\n")).failing_at(Action::Backup);
    assert_eq!(disk.append("never"), Err(AppendError::BackupFailed));
    assert_eq!(disk.target, Some(b"x\n".to_vec()));
    assert_eq!(disk.performed, vec![Action::Probe, Action::Backup]);
}

#[test]
fn a_backup_that_cannot_be_removed_is_reported_and_the_line_stays() {
    let mut disk = Disk::holding(Some(b"x\n")).failing_at(Action::RemoveBackup);
    assert_eq!(disk.append("kept"), Err(AppendError::CleanupFailed));
    assert_eq!(disk.target, Some(b"x\nkept\n".to_vec()));
    assert_eq!(disk.backup, Some(b"x\n".to_vec()));
}

#[test]
fn a_failed_restore_is_reported_as_such_and_the_backup_survives() {
    let mut disk = Disk::holding(Some(b"x\n"))
        .failing_at(Action::Write)
        .failing_at(Action::Restore);
    assert_eq!(disk.append("lost"), Err(AppendError::RestoreFailed));
    assert_eq!(disk.backup, Some(b"x\n".to_vec()));
    assert_eq!(
        disk.performed,
        vec![Action::Probe, Action::Backup, Action::Write, Action::Restore]
    );
}

#[test]
fn a_backup_left_after_a_restore_is_reported_as_a_failed_restore() {
    let mut disk = Disk::holding(Some(b"x\n"))
        .failing_at(Action::Write)
        .failing_at(Action::RemoveBackup);
    assert_eq!(disk.append("lost"), Err(AppendError::RestoreFailed));
    assert_eq!(disk.target, Some(b"x\n".to_vec()));
}

#[test]
fn a_failed_first_write_has_nothing_to_restore() {
    let mut disk = Disk::holding(None).failing_at(Action::Write);
    assert_eq!(disk.append("first"), Err(AppendError::AppendFailed));
    assert_eq!(disk.backup, None);
    assert_eq!(disk.performed, vec![Action::Probe, Action::Write]);
}

#[test]
fn a_stale_backup_is_overwritten_and_removed() {
    let mut disk = Disk::holding(Some(b"x\n"));
    disk.backup = Some(b"stale".to_vec());
    assert_eq!(disk.append("y"), Ok(()));
    assert_eq!(disk.target, Some(b"x\ny\n".to_vec()));
    assert_eq!(disk.backup, None);
}

#[test]
fn appends_follow_one_another() {
    let mut disk = Disk::holding(None);
    for text in ["one", "two", "three"] {
        assert_eq!(disk.append(text), Ok(()));
    }
    assert_eq!(disk.target, Some(b"one\ntwo\nthree\n".to_vec()));
    assert_eq!(disk.backup, None);
}

#[test]
fn every_course_of_reports_ends_within_five_of_them() {
    let mut course = 0u32;
    while course < 32 {
        let mut phase = Phase::start();
        let mut turn = 0;
        while turn < 5 {
            phase = phase.advance(course & (1 << turn) != 0);
            turn += 1;
        }
        assert!(phase.outcome().is_some());
        assert_eq!(phase.advance(true), phase);
        assert_eq!(phase.advance(false), phase);
        course += 1;
    }
}

#[test]
fn the_phases_ask_for_their_operations() {
    assert_eq!(Phase::Probing.action(), Action::Probe);
    assert_eq!(Phase::BackingUp.action(), Action::Backup);
    assert_eq!(Phase::Writing { protected: true }.action(), Action::Write);
    assert_eq!(Phase::Writing { protected: false }.action(), Action::Write);
    assert_eq!(Phase::Cleaning.action(), Action::RemoveBackup);
    assert_eq!(Phase::Restoring.action(), Action::Restore);
    assert_eq!(Phase::Clearing.action(), Action::RemoveBackup);
    assert_eq!(
        Phase::Finished(Err(AppendError::CleanupFailed)).action(),
        Action::Finish(Err(AppendError::CleanupFailed))
    );
}

#[test]
fn failures_are_weighed() {
    assert_eq!(AppendError::CleanupFailed.severity(), Severity::Warning);
    assert_eq!(AppendError::BackupFailed.severity(), Severity::Error);
    assert_eq!(AppendError::AppendFailed.severity(), Severity::Error);
    assert_eq!(AppendError::RestoreFailed.severity(), Severity::Critical);
}

#[test]
fn the_line_is_written_unless_more_than_the_cleanup_failed() {
    assert!(is_written(Ok(())));
    assert!(is_written(Err(AppendError::CleanupFailed)));
    assert!(!is_written(Err(AppendError::BackupFailed)));
    assert!(!is_written(Err(AppendError::AppendFailed)));
    assert!(!is_written(Err(AppendError::RestoreFailed)));
}
