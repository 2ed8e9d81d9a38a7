//! The configuration migration protocol.
//!
//! Migration moves the configuration from the legacy file name to the
//! current one in four checked steps: back up the legacy file, copy it to
//! the current name, validate the copy by parsing it, and only then remove
//! the legacy file. Every step either fully succeeds or leaves the files in
//! a well-defined partial state; the destructive step is strictly last, so
//! the legacy file is never removed unless validation succeeded.
//!
//! The protocol is expressed over the contents of the three files it may
//! touch, with the environment's verdict on each file operation an input;
//! the caller performs the real file operations and reports their outcomes.

use vstd::prelude::*;

use crate::config::ConfigError;
use crate::config::ConfigFileName;
use crate::parser::parse_config;
use crate::parser::parse_config_spec;

verus! {

/// The contents of the three files the migration may touch; `None` means
/// the file does not exist.
pub struct FsState {
    /// The legacy configuration file.
    pub legacy: Option<String>,
    /// The current configuration file.
    pub current: Option<String>,
    /// The backup file (the legacy name plus the backup suffix).
    pub backup: Option<String>,
}

/// The content of one file as characters, or nothing for an absent file.
pub open spec fn file_view(f: Option<String>) -> Option<Seq<char>> {
    match f {
        Some(s) => Some(s@),
        None => None,
    }
}

/// All three files as contents.
pub open spec fn fs_view(fs: FsState) -> (Option<Seq<char>>, Option<Seq<char>>, Option<Seq<char>>) {
    (file_view(fs.legacy), file_view(fs.current), file_view(fs.backup))
}

/// The environment's verdict on each file operation the protocol may
/// attempt: whether the operation would succeed if attempted.
pub struct MigrationIo {
    /// Copying the legacy file to the backup name.
    pub backup_copy_ok: bool,
    /// Copying the legacy file to the current name.
    pub current_copy_ok: bool,
    /// Removing the legacy file.
    pub remove_legacy_ok: bool,
}

/// Runs the migration protocol over the file contents, each step checked
/// before proceeding:
///
/// 1. the legacy file must exist and the current file must not, else
///    `MigrationFailed` and nothing is touched;
/// 2. the legacy file is copied to the backup name, else `BackupFailed` and
///    nothing else is modified;
/// 3. the legacy file is copied to the current name, else `MigrationFailed`
///    with the backup in place and no current file left behind;
/// 4. the copy is validated by parsing; on failure the just-created current
///    file is removed again and the result is `MigrationFailed`, with the
///    legacy file and the backup intact;
/// 5. only after successful validation is the legacy file removed; if that
///    removal fails, `MigrationFailed` is returned while the backup and the
///    validated current file stay in place.
///
/// On full success the current name is returned: the legacy file is gone
/// and both the current file and the backup hold the original legacy
/// content.
pub fn migrate_config(fs: FsState, io: MigrationIo) -> (r: (
    FsState,
    Result<ConfigFileName, ConfigError>,
))
    ensures
        fs.legacy is None ==> (r.1 matches Err(e) && e is MigrationFailed && fs_view(r.0)
            == fs_view(fs)),
        fs.legacy is Some && fs.current is Some ==> (r.1 matches Err(e) && e is MigrationFailed
            && fs_view(r.0) == fs_view(fs)),
        fs.legacy is Some && fs.current is None ==> {
            let lv = fs.legacy->Some_0@;
            &&& !io.backup_copy_ok ==> (r.1 matches Err(e) && e is BackupFailed && fs_view(r.0)
                == fs_view(fs))
            &&& io.backup_copy_ok && !io.current_copy_ok ==> (r.1 matches Err(e)
                && e is MigrationFailed && file_view(r.0.legacy) == Some(lv) && r.0.current is None
                && file_view(r.0.backup) == Some(lv))
            &&& io.backup_copy_ok && io.current_copy_ok && parse_config_spec(lv) is None ==> (
            r.1 matches Err(e) && e is MigrationFailed && file_view(r.0.legacy) == Some(lv)
                && r.0.current is None && file_view(r.0.backup) == Some(lv))
            &&& io.backup_copy_ok && io.current_copy_ok && parse_config_spec(lv) is Some
                && !io.remove_legacy_ok ==> (r.1 matches Err(e) && e is MigrationFailed
                && file_view(r.0.legacy) == Some(lv) && file_view(r.0.current) == Some(lv)
                && file_view(r.0.backup) == Some(lv))
            &&& io.backup_copy_ok && io.current_copy_ok && parse_config_spec(lv) is Some
                && io.remove_legacy_ok ==> (r.1 == Ok::<ConfigFileName, ConfigError>(
                ConfigFileName::Current,
            ) && r.0.legacy is None && file_view(r.0.current) == Some(lv) && file_view(r.0.backup)
                == Some(lv))
        },
{
    let legacy_content: String = match &fs.legacy {
        Some(s) => s.clone(),
        None => {
            return (
                fs,
                Err(
                    ConfigError::MigrationFailed(
                        String::from_str("Old configuration file does not exist"),
                    ),
                ),
            );
        },
    };
    match &fs.current {
        Some(_) => {
            return (
                fs,
                Err(
                    ConfigError::MigrationFailed(
                        String::from_str("New configuration file already exists"),
                    ),
                ),
            );
        },
        None => {},
    }
    if !io.backup_copy_ok {
        return (
            fs,
            Err(ConfigError::BackupFailed(String::from_str("Failed to create backup"))),
        );
    }
    let fs = FsState {
        legacy: fs.legacy,
        current: fs.current,
        backup: Some(legacy_content.clone()),
    };
    if !io.current_copy_ok {
        return (
            fs,
            Err(
                ConfigError::MigrationFailed(
                    String::from_str("Failed to copy to new location"),
                ),
            ),
        );
    }
    let fs = FsState {
        legacy: fs.legacy,
        current: Some(legacy_content.clone()),
        backup: fs.backup,
    };
    match parse_config(legacy_content.as_str(), ".advisor.toml") {
        Err(_) => {
            // Roll back: the invalid copy is removed; legacy and backup stay.
            return (
                FsState { legacy: fs.legacy, current: None, backup: fs.backup },
                Err(
                    ConfigError::MigrationFailed(
                        String::from_str("New configuration validation failed"),
                    ),
                ),
            );
        },
        Ok(_) => {},
    }
    if !io.remove_legacy_ok {
        return (
            fs,
            Err(
                ConfigError::MigrationFailed(
                    String::from_str("Failed to remove original file"),
                ),
            ),
        );
    }
    (
        FsState { legacy: None, current: fs.current, backup: fs.backup },
        Ok(ConfigFileName::Current),
    )
}

} // verus!
