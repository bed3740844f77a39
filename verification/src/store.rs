//! Rules of the on-disk profile store: where the configuration lives, the size limit, which
//! files are safe to trust, how a replacement is committed and how an interrupted one is
//! recovered. Opening, locking, reading and renaming files stay with the caller.
use crate::error::{hinted_error, AppError, ErrorCode};
use crate::text::{decimal_digits, push_decimal, push_str};
use vstd::prelude::*;

verus! {

/// The configuration file inside the configuration home.
pub const CONFIG_FILE_NAME: &'static str = "profiles.json";

/// The lock file that serializes updates.
pub const LOCK_FILE_NAME: &'static str = ".profiles.lock";

/// The largest configuration accepted, in bytes.
pub const MAX_CONFIG_BYTES: u64 = 1048576;

/// Hint for a configuration that cannot be opened.
pub const CONFIG_ACCESS_HINT: &'static str =
    "Check that the HostBraid config directory is accessible and owned by your user. Set `HOSTBRAID_CONFIG_HOME` to a private directory if needed.";

/// Hint for a configuration that cannot be written.
pub const CONFIG_WRITE_HINT: &'static str =
    "Check that the HostBraid config directory is owned by your user and writable, then retry.";

/// Hint for a configuration that must be repaired by hand.
pub const CONFIG_REPAIR_HINT: &'static str =
    "Back up profiles.json, then repair it or move it aside; recreate profiles with `hb login`.";

/// Hint for a path that is not safe to use.
pub const CONFIG_SAFETY_HINT: &'static str =
    "Move the unsafe path aside and recreate it as a real directory or file owned by your user; HostBraid will not follow symlinks.";

// ---------------------------------------------------------------------------------------------
// Where the configuration lives
// ---------------------------------------------------------------------------------------------
/// Which setting decided the configuration home.
#[derive(Debug, Clone, Copy, PartialEq, Eq, Structural)]
pub enum ConfigHomeSource {
    /// `HOSTBRAID_CONFIG_HOME`, used as it is.
    Explicit,
    /// `XDG_CONFIG_HOME`, joined with `hostbraid`.
    XdgConfig,
    /// `HOME`, joined with `.config/hostbraid`.
    Home,
}

impl ConfigHomeSource {
    /// The path segments appended to the chosen setting.
    pub fn segments(self) -> (r: Vec<&'static str>)
        ensures
            match self {
                ConfigHomeSource::Explicit => r@.len() == 0,
                ConfigHomeSource::XdgConfig => r@.len() == 1 && r@[0]@ == "hostbraid"@,
                ConfigHomeSource::Home => r@.len() == 2 && r@[0]@ == ".config"@ && r@[1]@
                    == "hostbraid"@,
            },
    {
        match self {
            ConfigHomeSource::Explicit => Vec::new(),
            ConfigHomeSource::XdgConfig => vec!["hostbraid"],
            ConfigHomeSource::Home => vec![".config", "hostbraid"],
        }
    }
}

/// The error when no setting names a configuration home.
pub open spec fn no_config_home(e: crate::error::AppErrorView) -> bool {
    hinted_error(
        e,
        ErrorCode::Io,
        "could not determine the HostBraid configuration directory"@,
        "Set HOSTBRAID_CONFIG_HOME to a private directory."@,
    )
}

/// Choose the configuration home from which settings are present and non-empty: the explicit
/// override wins, then the XDG configuration home, then the home directory.
pub fn config_home_source(explicit_set: bool, xdg_set: bool, home_set: bool) -> (r: Result<
    ConfigHomeSource,
    AppError,
>)
    ensures
        explicit_set ==> r == Ok::<ConfigHomeSource, AppError>(ConfigHomeSource::Explicit),
        !explicit_set && xdg_set ==> r == Ok::<ConfigHomeSource, AppError>(
            ConfigHomeSource::XdgConfig,
        ),
        !explicit_set && !xdg_set && home_set ==> r == Ok::<ConfigHomeSource, AppError>(
            ConfigHomeSource::Home,
        ),
        !explicit_set && !xdg_set && !home_set ==> (r matches Err(e) && no_config_home(e@)),
{
    if explicit_set {
        Ok(ConfigHomeSource::Explicit)
    } else if xdg_set {
        Ok(ConfigHomeSource::XdgConfig)
    } else if home_set {
        Ok(ConfigHomeSource::Home)
    } else {
        Err(
            AppError::new(
                ErrorCode::Io,
                "could not determine the HostBraid configuration directory",
            ).with_hint("Set HOSTBRAID_CONFIG_HOME to a private directory."),
        )
    }
}

// ---------------------------------------------------------------------------------------------
// Size limits and parse failures
// ---------------------------------------------------------------------------------------------
/// The error for a configuration on disk over the limit.
pub open spec fn too_large_on_disk(e: crate::error::AppErrorView) -> bool {
    hinted_error(
        e,
        ErrorCode::InvalidInput,
        "profile configuration is larger than the supported limit"@,
        CONFIG_REPAIR_HINT@,
    )
}

/// Accept a configuration of `length` bytes for reading: at most `MAX_CONFIG_BYTES`.
pub fn check_stored_length(length: u64) -> (r: Result<(), AppError>)
    ensures
        length <= MAX_CONFIG_BYTES ==> r is Ok,
        length > MAX_CONFIG_BYTES ==> (r matches Err(e) && too_large_on_disk(e@)),
{
    if length > MAX_CONFIG_BYTES {
        Err(
            AppError::new(
                ErrorCode::InvalidInput,
                "profile configuration is larger than the supported limit",
            ).with_hint(CONFIG_REPAIR_HINT),
        )
    } else {
        Ok(())
    }
}

/// The error for a configuration that is not HostBraid JSON. It never quotes the file.
pub fn invalid_configuration_json() -> (r: AppError)
    ensures
        hinted_error(
            r@,
            ErrorCode::InvalidInput,
            "profile configuration is not valid HostBraid JSON"@,
            CONFIG_REPAIR_HINT@,
        ),
{
    AppError::new(ErrorCode::InvalidInput, "profile configuration is not valid HostBraid JSON")
        .with_hint(CONFIG_REPAIR_HINT)
}

/// The error for a configuration that could not be serialized.
pub fn serialization_failed() -> (r: AppError)
    ensures
        hinted_error(
            r@,
            ErrorCode::Internal,
            "failed to serialize the profile configuration"@,
            "Retry once. If it repeats, update HostBraid and report the failure with `hb --version`."@,
        ),
{
    AppError::new(ErrorCode::Internal, "failed to serialize the profile configuration").with_hint(
        "Retry once. If it repeats, update HostBraid and report the failure with `hb --version`.",
    )
}

/// The error for a change whose serialized configuration would be over the limit.
pub open spec fn change_too_large(e: crate::error::AppErrorView) -> bool {
    hinted_error(
        e,
        ErrorCode::InvalidInput,
        "the profile change would exceed the supported configuration size"@,
        "The change was not saved. Remove unneeded profiles or reduce stored metadata, then retry."@,
    )
}

/// Accept a serialized configuration of `length` bytes (its final newline included) for
/// writing: at most `MAX_CONFIG_BYTES`. A refused change is never written.
pub fn check_serialized_length(length: usize) -> (r: Result<(), AppError>)
    ensures
        length <= MAX_CONFIG_BYTES ==> r is Ok,
        length > MAX_CONFIG_BYTES ==> (r matches Err(e) && change_too_large(e@)),
{
    if length as u64 > MAX_CONFIG_BYTES {
        Err(
            AppError::new(
                ErrorCode::InvalidInput,
                "the profile change would exceed the supported configuration size",
            ).with_hint(
                "The change was not saved. Remove unneeded profiles or reduce stored metadata, then retry.",
            ),
        )
    } else {
        Ok(())
    }
}

// ---------------------------------------------------------------------------------------------
// Replacement
// ---------------------------------------------------------------------------------------------
/// The name of a temporary configuration: `.profiles.json.<process>.<sequence>.tmp`.
pub open spec fn temporary_name(process: nat, sequence: nat) -> Seq<char> {
    "."@ + CONFIG_FILE_NAME@ + "."@ + decimal_digits(process) + "."@ + decimal_digits(sequence)
        + ".tmp"@
}

pub fn temporary_file_name(process: u32, sequence: u64) -> (r: String)
    ensures
        r@ == temporary_name(process as nat, sequence as nat),
{
    let mut name = ".".to_owned();
    push_str(&mut name, CONFIG_FILE_NAME);
    push_str(&mut name, ".");
    push_decimal(&mut name, process as u64);
    push_str(&mut name, ".");
    push_decimal(&mut name, sequence);
    push_str(&mut name, ".tmp");
    name
}

/// Commit a replacement: rename first, then sync the parent directory as best-effort
/// durability work. The result is the rename's, so a sync failure after a successful rename is
/// never reported as if the change had been rolled back.
pub fn commit_replacement<R, S>(replace: R, sync_parent: S) -> (r: Result<(), AppError>) where
    R: FnOnce() -> Result<(), AppError>,
    S: FnOnce() -> Result<(), AppError>,

    requires
        call_requires(replace, ()),
        call_requires(sync_parent, ()),
    ensures
        call_ensures(replace, (), r),
{
    let replaced = replace();
    if replaced.is_ok() {
        let _ = sync_parent();
    }
    replaced
}

/// What to do with the files an interrupted backup-then-rename replacement may have left.
#[derive(Debug, Clone, Copy, PartialEq, Eq, Structural)]
pub enum RecoveryAction {
    /// Nothing was interrupted.
    Nothing,
    /// The replacement was committed; the backup is stale and may be removed.
    DiscardStaleBackup,
    /// The replacement was not committed; the backup is restored before anything is read.
    RestoreBackup,
}

/// Decide the recovery from which of the destination and its backup exist. The destination,
/// when present, is authoritative.
pub fn recovery_action(destination_exists: bool, backup_exists: bool) -> (r: RecoveryAction)
    ensures
        r == if destination_exists {
            if backup_exists {
                RecoveryAction::DiscardStaleBackup
            } else {
                RecoveryAction::Nothing
            }
        } else if backup_exists {
            RecoveryAction::RestoreBackup
        } else {
            RecoveryAction::Nothing
        },
{
    if destination_exists {
        if backup_exists {
            RecoveryAction::DiscardStaleBackup
        } else {
            RecoveryAction::Nothing
        }
    } else if backup_exists {
        RecoveryAction::RestoreBackup
    } else {
        RecoveryAction::Nothing
    }
}

// ---------------------------------------------------------------------------------------------
// Which files are safe
// ---------------------------------------------------------------------------------------------
/// The permission bits of a mode.
pub open spec fn permission_bits(mode: u32) -> u32 {
    mode & 0o7777u32
}

/// The error for a path owned by someone else.
pub open spec fn not_owned(e: crate::error::AppErrorView, description: Seq<char>) -> bool {
    hinted_error(
        e,
        ErrorCode::Io,
        description + " is not owned by the current user"@,
        CONFIG_SAFETY_HINT@,
    )
}

fn not_owned_error(description: &str) -> (r: AppError)
    ensures
        not_owned(r@, description@),
{
    let mut message = description.to_owned();
    push_str(&mut message, " is not owned by the current user");
    AppError::new(ErrorCode::Io, message.as_str()).with_hint(CONFIG_SAFETY_HINT)
}

fn safety_error(message: &str) -> (r: AppError)
    ensures
        hinted_error(r@, ErrorCode::Io, message@, CONFIG_SAFETY_HINT@),
{
    AppError::new(ErrorCode::Io, message).with_hint(CONFIG_SAFETY_HINT)
}

/// Accept the opened configuration home before its permissions are changed: a directory owned
/// by the current user.
pub fn check_opened_directory(is_directory: bool, owner: u32, current_user: u32) -> (r: Result<
    (),
    AppError,
>)
    ensures
        is_directory && owner == current_user ==> r is Ok,
        !is_directory ==> (r matches Err(e) && hinted_error(
            e@,
            ErrorCode::Io,
            "profile configuration directory is not a safe directory"@,
            CONFIG_SAFETY_HINT@,
        )),
        is_directory && owner != current_user ==> (r matches Err(e) && not_owned(
            e@,
            "profile configuration directory"@,
        )),
{
    if !is_directory {
        return Err(safety_error("profile configuration directory is not a safe directory"));
    }
    if owner != current_user {
        return Err(not_owned_error("profile configuration directory"));
    }
    Ok(())
}

/// Accept the configuration home after its permissions were set: still owned by the current
/// user, with permission bits exactly `0o700`.
pub fn check_secured_directory(owner: u32, current_user: u32, mode: u32) -> (r: Result<
    (),
    AppError,
>)
    ensures
        owner == current_user && permission_bits(mode) == 0o700u32 ==> r is Ok,
        owner != current_user ==> (r matches Err(e) && not_owned(
            e@,
            "profile configuration directory"@,
        )),
        owner == current_user && permission_bits(mode) != 0o700u32 ==> (r matches Err(e)
            && hinted_error(
            e@,
            ErrorCode::Io,
            "profile configuration directory permissions could not be secured"@,
            CONFIG_SAFETY_HINT@,
        )),
{
    if owner != current_user {
        return Err(not_owned_error("profile configuration directory"));
    }
    if mode & 0o7777 != 0o700 {
        return Err(
            safety_error("profile configuration directory permissions could not be secured"),
        );
    }
    Ok(())
}

/// Accept an opened configuration, lock or temporary file before its permissions are changed:
/// a regular file with a single link, owned by the current user.
pub fn check_opened_file(
    description: &str,
    is_file: bool,
    links: u64,
    owner: u32,
    current_user: u32,
) -> (r: Result<(), AppError>)
    ensures
        is_file && links == 1 && owner == current_user ==> r is Ok,
        !(is_file && links == 1) ==> (r matches Err(e) && hinted_error(
            e@,
            ErrorCode::Io,
            description@ + " is not a safe regular file"@,
            CONFIG_SAFETY_HINT@,
        )),
        is_file && links == 1 && owner != current_user ==> (r matches Err(e) && not_owned(
            e@,
            description@,
        )),
{
    if !is_file || links != 1 {
        let mut message = description.to_owned();
        push_str(&mut message, " is not a safe regular file");
        return Err(safety_error(message.as_str()));
    }
    if owner != current_user {
        return Err(not_owned_error(description));
    }
    Ok(())
}

/// Accept a file after its permissions were set: still owned by the current user, a regular
/// file with a single link, and permission bits exactly `0o600`.
pub fn check_secured_file(
    description: &str,
    is_file: bool,
    links: u64,
    owner: u32,
    current_user: u32,
    mode: u32,
) -> (r: Result<(), AppError>)
    ensures
        owner == current_user && is_file && links == 1 && permission_bits(mode) == 0o600u32
            ==> r is Ok,
        owner != current_user ==> (r matches Err(e) && not_owned(e@, description@)),
        owner == current_user && !(is_file && links == 1 && permission_bits(mode) == 0o600u32)
            ==> (r matches Err(e) && hinted_error(
            e@,
            ErrorCode::Io,
            description@ + " permissions could not be secured"@,
            CONFIG_SAFETY_HINT@,
        )),
{
    if owner != current_user {
        return Err(not_owned_error(description));
    }
    if !is_file || links != 1 || mode & 0o7777 != 0o600 {
        let mut message = description.to_owned();
        push_str(&mut message, " permissions could not be secured");
        return Err(safety_error(message.as_str()));
    }
    Ok(())
}

} // verus!
