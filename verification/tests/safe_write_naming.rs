use sermon::safe_write::{
    after_backup_probe, after_failed_commit, backup_file_name, chrono_timestamp, days_to_ymd,
    format_timestamp, is_leap_year, safe_write_step, temp_file_name, too_many_backups,
    BackupStep, CommitStep, SafeWriteAction, SafeWriteError, SafeWriteEvent, SafeWriteOptions,
    SafeWritePhase, SafeWriteState, SafeWriteWork, WriteStatus,
};

#[test]
fn test_temp_file_naming() {
    let dst = std::path::Path::new("/music/song.flac");
    let name = dst.file_name().unwrap().to_str().unwrap();
    let tmp = temp_file_name(name);
    assert_eq!(tmp, "song.flac.sermon-tmp");
}

#[test]
fn test_timestamp_format() {
    let ts = chrono_timestamp();
    assert_eq!(ts.len(), 16);
    assert!(ts.ends_with('Z'));
    assert!(ts.chars().nth(8) == Some('-'));
}

#[test]
fn test_safe_write_options_default() {
    let options = SafeWriteOptions::default();
    assert!(options.create_backup);
}

#[test]
fn test_write_status_variants() {
    let retry = WriteStatus::Retry { attempt: 1, max_attempts: 3, error_code: Some(32) };
    let success = WriteStatus::Success;
    let error = WriteStatus::Error { message: "test".into(), error_code: None };

    assert!(matches!(retry, WriteStatus::Retry { .. }));
    assert!(matches!(success, WriteStatus::Success));
    assert!(matches!(error, WriteStatus::Error { .. }));
}

#[test]
fn test_safe_write_error_variants() {
    let io_err = SafeWriteError::Io(std::io::Error::new(std::io::ErrorKind::NotFound, "test"));
    let write_err = SafeWriteError::WriteFailed("failed".into());
    let lock_err = SafeWriteError::LockTimeout { attempts: 3, last_error_code: 32 };
    let dst_err = SafeWriteError::DstMissing { backup_restored: true };
    let other_err = SafeWriteError::Other("other".into());

    assert!(io_err.message().contains("IO error"));
    assert!(write_err.message().contains("failed"));
    assert!(lock_err.message().contains("timeout"));
    assert!(dst_err.message().contains("missing"));
    assert!(other_err.message().contains("other"));
}

#[test]
fn error_messages_are_exact() {
    let io_err = SafeWriteError::Io(std::io::Error::new(std::io::ErrorKind::NotFound, "gone"));
    assert_eq!(io_err.message(), "IO error: gone");
    assert_eq!(
        SafeWriteError::LockTimeout { attempts: 3, last_error_code: 32 }.message(),
        "File lock timeout after 3 attempts (error code: 32)"
    );
    assert_eq!(
        SafeWriteError::DstMissing { backup_restored: false }.message(),
        "Destination file missing after commit (backup restored: false)"
    );
    assert_eq!(
        SafeWriteError::WriteFailed("disk full".into()).message(),
        "Write operation failed: disk full"
    );
}

#[test]
fn backup_names() {
    assert_eq!(backup_file_name("test.mp3", "20240101-000000Z", 0), "test.mp3.bak.20240101-000000Z");
    assert_eq!(
        backup_file_name("test.mp3", "20240101-000000Z", 12),
        "test.mp3.bak.20240101-000000Z.12"
    );
}

#[test]
fn calendar_conversion() {
    assert_eq!(days_to_ymd(0), (1970, 1, 1));
    assert_eq!(days_to_ymd(59), (1970, 3, 1));
    assert_eq!(days_to_ymd(11016), (2000, 2, 29));
    assert_eq!(days_to_ymd(19723), (2024, 1, 1));
    assert!(is_leap_year(2000));
    assert!(!is_leap_year(1900));
    assert!(is_leap_year(2024));
    assert!(!is_leap_year(2023));
    assert!(is_leap_year(-4));
    assert!(!is_leap_year(-100));
    assert!(is_leap_year(-400));
    assert!(is_leap_year(i32::MIN));
}

#[test]
fn timestamp_of_known_instant() {
    assert_eq!(format_timestamp(0), "19700101-000000Z");
    assert_eq!(format_timestamp(1_704_067_199), "20231231-235959Z");
    assert_eq!(format_timestamp(951_782_400 + 3_723), "20000229-010203Z");
}

#[test]
fn commit_retry_policy() {
    assert_eq!(after_failed_commit(1, true, 32), CommitStep::Retry { attempt: 1, backoff_ms: Some(75) });
    assert_eq!(after_failed_commit(2, true, 32), CommitStep::Retry { attempt: 2, backoff_ms: Some(200) });
    assert_eq!(after_failed_commit(3, true, 32), CommitStep::GiveUp { attempts: 3, last_error_code: 32 });
    assert_eq!(after_failed_commit(1, false, 5), CommitStep::GiveUp { attempts: 1, last_error_code: 5 });
}

#[test]
fn backup_search_uses_the_first_free_suffix() {
    assert_eq!(after_backup_probe(0, false), BackupStep::Use(0));
    assert_eq!(after_backup_probe(0, true), BackupStep::Probe(1));
    assert_eq!(after_backup_probe(41, true), BackupStep::Probe(42));
    assert_eq!(after_backup_probe(42, false), BackupStep::Use(42));
    assert_eq!(after_backup_probe(998, true), BackupStep::Probe(999));
    assert_eq!(after_backup_probe(999, false), BackupStep::Use(999));
    assert_eq!(after_backup_probe(999, true), BackupStep::TooMany);
    assert_eq!(too_many_backups().message(), "Too many backup files with same timestamp");
}

#[test]
fn timestamps_past_year_9999_keep_the_real_year() {
    assert_eq!(format_timestamp(253_402_300_800), "100000101-000000Z");
    assert_eq!(format_timestamp(253_402_300_799), "99991231-235959Z");
}

#[test]
fn safe_write_sequence_with_backup() {
    let opts = SafeWriteOptions { create_backup: true };
    let s = SafeWriteState::new(&opts);
    let (s, a) = safe_write_step(s, SafeWriteEvent::Begin);
    assert!(matches!(a, SafeWriteAction::Do(SafeWriteWork::MakeTempPath)));
    let (s, a) = safe_write_step(s, SafeWriteEvent::TempPathMade(Ok(())));
    assert!(matches!(a, SafeWriteAction::Do(SafeWriteWork::CopyToTemp)));
    let (s, a) = safe_write_step(s, SafeWriteEvent::Copied(Ok(())));
    assert!(matches!(a, SafeWriteAction::Do(SafeWriteWork::RunEdit)));
    let (s, a) = safe_write_step(s, SafeWriteEvent::Edited(Ok(())));
    assert!(matches!(a, SafeWriteAction::Do(SafeWriteWork::FlushTemp)));
    let (s, a) = safe_write_step(s, SafeWriteEvent::Flushed(Ok(())));
    assert!(matches!(a, SafeWriteAction::Do(SafeWriteWork::MakeBackup)));
    let (s, a) = safe_write_step(s, SafeWriteEvent::BackedUp(Ok(())));
    assert!(s.backup_made);
    assert!(matches!(a, SafeWriteAction::Do(SafeWriteWork::Commit)));
    let (s, a) = safe_write_step(s, SafeWriteEvent::Committed(Ok(())));
    assert!(matches!(a, SafeWriteAction::Do(SafeWriteWork::CheckDst)));
    let (done, a) = safe_write_step(s, SafeWriteEvent::DstChecked(true));
    assert_eq!(done.phase, SafeWritePhase::Finished);
    assert!(matches!(a, SafeWriteAction::Finish { remove_temp: true, report_success: true, result: Ok(()) }));
    // A missing destination is restored from the backup when it can be.
    let (s2, a) = safe_write_step(s, SafeWriteEvent::DstChecked(false));
    assert!(matches!(a, SafeWriteAction::Do(SafeWriteWork::RestoreFromBackup)));
    let (_, a) = safe_write_step(s2, SafeWriteEvent::RestoreTried(Some(true)));
    assert!(matches!(a, SafeWriteAction::Finish { remove_temp: false, report_success: false, result: Err(SafeWriteError::DstMissing { backup_restored: true }) }));
    let (_, a) = safe_write_step(s2, SafeWriteEvent::RestoreTried(None));
    assert!(matches!(a, SafeWriteAction::Finish { result: Err(SafeWriteError::DstMissing { backup_restored: false }), .. }));
    let (_, a) = safe_write_step(s2, SafeWriteEvent::RestoreTried(Some(false)));
    assert!(matches!(a, SafeWriteAction::Finish { result: Err(SafeWriteError::DstMissing { backup_restored: false }), .. }));
}

#[test]
fn safe_write_sequence_failures() {
    let s = SafeWriteState::new(&SafeWriteOptions { create_backup: false });
    let (s, _) = safe_write_step(s, SafeWriteEvent::Begin);
    let (s, _) = safe_write_step(s, SafeWriteEvent::TempPathMade(Ok(())));
    let (failed, a) = safe_write_step(s, SafeWriteEvent::Copied(Err(("/m/a.flac".to_string(), "denied".to_string()))));
    assert_eq!(failed.phase, SafeWritePhase::Finished);
    match a {
        SafeWriteAction::Finish { remove_temp, report_success, result: Err(e) } => {
            assert!(!remove_temp && !report_success);
            assert_eq!(e.message(), "Failed to copy /m/a.flac to temp: denied");
        }
        _ => panic!("copy failure must finish"),
    }
    let (s, _) = safe_write_step(s, SafeWriteEvent::Copied(Ok(())));
    let (_, a) = safe_write_step(s, SafeWriteEvent::Edited(Err("bad tag".to_string())));
    assert!(matches!(a, SafeWriteAction::Finish { remove_temp: true, report_success: false, result: Err(SafeWriteError::WriteFailed(ref m)) } if m == "bad tag"));
    let (s, _) = safe_write_step(s, SafeWriteEvent::Edited(Ok(())));
    let (s, a) = safe_write_step(s, SafeWriteEvent::Flushed(Ok(())));
    assert!(matches!(a, SafeWriteAction::Do(SafeWriteWork::Commit)));
    let (_, a) = safe_write_step(s, SafeWriteEvent::Committed(Err(SafeWriteError::LockTimeout { attempts: 3, last_error_code: 32 })));
    assert!(matches!(a, SafeWriteAction::Finish { remove_temp: true, result: Err(SafeWriteError::LockTimeout { attempts: 3, .. }), .. }));
    let (s, _) = safe_write_step(s, SafeWriteEvent::Committed(Ok(())));
    let (_, a) = safe_write_step(s, SafeWriteEvent::DstChecked(false));
    assert!(matches!(a, SafeWriteAction::Finish { remove_temp: false, result: Err(SafeWriteError::DstMissing { backup_restored: false }), .. }));
}

#[test]
fn commit_failure_is_reported_with_its_code() {
    match sermon::safe_write::commit_failed_status(32) {
        WriteStatus::Error { message, error_code } => {
            assert_eq!(message, "Atomic commit failed (error code: 32)");
            assert_eq!(error_code, Some(32));
        }
        other => panic!("unexpected status {:?}", other),
    }
}
