use hook_advisor::config::ConfigError;
use hook_advisor::config::ConfigFileName;
use hook_advisor::migrate::migrate_config;
use hook_advisor::migrate::FsState;
use hook_advisor::migrate::MigrationIo;
use hook_advisor::parser::parse_config;

const LEGACY_TEXT: &str = "[commands]\nnpm = \"bun\"\n";

fn io_all_ok() -> MigrationIo {
    MigrationIo { backup_copy_ok: true, current_copy_ok: true, remove_legacy_ok: true }
}

#[test]
fn migrate_without_legacy_file_fails_and_creates_nothing() {
    let fs = FsState { legacy: None, current: None, backup: None };
    let (fs2, r) = migrate_config(fs, io_all_ok());
    assert!(matches!(r, Err(ConfigError::MigrationFailed(_))));
    assert_eq!(fs2.legacy, None);
    assert_eq!(fs2.current, None);
    assert_eq!(fs2.backup, None);
}

#[test]
fn migrate_with_both_files_fails_and_changes_nothing() {
    let fs = FsState {
        legacy: Some(LEGACY_TEXT.to_string()),
        current: Some("[commands]\nnpm = \"bunx\"\n".to_string()),
        backup: None,
    };
    let (fs2, r) = migrate_config(fs, io_all_ok());
    assert!(matches!(r, Err(ConfigError::MigrationFailed(_))));
    assert_eq!(fs2.legacy, Some(LEGACY_TEXT.to_string()));
    assert_eq!(fs2.current, Some("[commands]\nnpm = \"bunx\"\n".to_string()));
    assert_eq!(fs2.backup, None);
}

#[test]
fn migrate_full_success() {
    let fs = FsState { legacy: Some(LEGACY_TEXT.to_string()), current: None, backup: None };
    let (fs2, r) = migrate_config(fs, io_all_ok());
    assert_eq!(r.unwrap(), ConfigFileName::Current);
    // The legacy file is gone; the current file and the backup both hold
    // the original legacy content, and the current file loads.
    assert_eq!(fs2.legacy, None);
    assert_eq!(fs2.current, Some(LEGACY_TEXT.to_string()));
    assert_eq!(fs2.backup, Some(LEGACY_TEXT.to_string()));
    let config = parse_config(fs2.current.as_deref().unwrap(), ".advisor.toml").unwrap();
    assert_eq!(config.commands, vec![("npm".to_string(), "bun".to_string())]);
}

#[test]
fn migrate_twice_fails_the_second_time() {
    let fs = FsState { legacy: Some(LEGACY_TEXT.to_string()), current: None, backup: None };
    let (fs2, r) = migrate_config(fs, io_all_ok());
    assert!(r.is_ok());
    let (fs3, r2) = migrate_config(
        FsState { legacy: fs2.legacy, current: fs2.current, backup: fs2.backup },
        io_all_ok(),
    );
    assert!(matches!(r2, Err(ConfigError::MigrationFailed(_))));
    assert_eq!(fs3.legacy, None);
    assert_eq!(fs3.current, Some(LEGACY_TEXT.to_string()));
}

#[test]
fn failed_backup_modifies_nothing() {
    let fs = FsState { legacy: Some(LEGACY_TEXT.to_string()), current: None, backup: None };
    let io = MigrationIo { backup_copy_ok: false, current_copy_ok: true, remove_legacy_ok: true };
    let (fs2, r) = migrate_config(fs, io);
    assert!(matches!(r, Err(ConfigError::BackupFailed(_))));
    assert_eq!(fs2.legacy, Some(LEGACY_TEXT.to_string()));
    assert_eq!(fs2.current, None);
    assert_eq!(fs2.backup, None);
}

#[test]
fn failed_copy_keeps_backup_and_leaves_no_current_file() {
    let fs = FsState { legacy: Some(LEGACY_TEXT.to_string()), current: None, backup: None };
    let io = MigrationIo { backup_copy_ok: true, current_copy_ok: false, remove_legacy_ok: true };
    let (fs2, r) = migrate_config(fs, io);
    assert!(matches!(r, Err(ConfigError::MigrationFailed(_))));
    assert_eq!(fs2.legacy, Some(LEGACY_TEXT.to_string()));
    assert_eq!(fs2.current, None);
    assert_eq!(fs2.backup, Some(LEGACY_TEXT.to_string()));
}

#[test]
fn failed_validation_rolls_back_the_current_file() {
    let bad = "not valid configuration text";
    let fs = FsState { legacy: Some(bad.to_string()), current: None, backup: None };
    let (fs2, r) = migrate_config(fs, io_all_ok());
    assert!(matches!(r, Err(ConfigError::MigrationFailed(_))));
    assert_eq!(fs2.legacy, Some(bad.to_string()));
    assert_eq!(fs2.current, None);
    assert_eq!(fs2.backup, Some(bad.to_string()));
}

#[test]
fn failed_cleanup_keeps_the_validated_current_file() {
    let fs = FsState { legacy: Some(LEGACY_TEXT.to_string()), current: None, backup: None };
    let io = MigrationIo { backup_copy_ok: true, current_copy_ok: true, remove_legacy_ok: false };
    let (fs2, r) = migrate_config(fs, io);
    assert!(matches!(r, Err(ConfigError::MigrationFailed(_))));
    assert_eq!(fs2.legacy, Some(LEGACY_TEXT.to_string()));
    assert_eq!(fs2.current, Some(LEGACY_TEXT.to_string()));
    assert_eq!(fs2.backup, Some(LEGACY_TEXT.to_string()));
}
