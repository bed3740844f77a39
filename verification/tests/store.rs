use hostbraid::error::{AppError, ErrorCode};
use hostbraid::store::{
    check_opened_directory, check_opened_file, check_secured_directory, check_secured_file,
    check_serialized_length, check_stored_length, commit_replacement, config_home_source,
    invalid_configuration_json, recovery_action, temporary_file_name, ConfigHomeSource,
    RecoveryAction, MAX_CONFIG_BYTES,
};
use std::cell::Cell;

#[test]
fn explicit_config_home_override_wins() {
    assert_eq!(config_home_source(true, true, true).expect("home"), ConfigHomeSource::Explicit);
    assert_eq!(config_home_source(false, true, true).expect("home"), ConfigHomeSource::XdgConfig);
    assert_eq!(config_home_source(false, false, true).expect("home"), ConfigHomeSource::Home);
    assert_eq!(ConfigHomeSource::Home.segments(), vec![".config", "hostbraid"]);
    assert_eq!(ConfigHomeSource::XdgConfig.segments(), vec!["hostbraid"]);
    assert!(ConfigHomeSource::Explicit.segments().is_empty());
    let error = config_home_source(false, false, false).expect_err("no home");
    assert_eq!(error.code(), ErrorCode::Io);
    assert_eq!(error.hint(), Some("Set HOSTBRAID_CONFIG_HOME to a private directory."));
}

#[test]
fn oversized_serialized_configuration_is_rejected_before_a_temp_write() {
    assert!(check_serialized_length(MAX_CONFIG_BYTES as usize).is_ok());
    let error = check_serialized_length(MAX_CONFIG_BYTES as usize + 1).expect_err("too large");
    assert_eq!(error.code(), ErrorCode::InvalidInput);
    assert_eq!(error.message(), "the profile change would exceed the supported configuration size");
    assert!(check_stored_length(MAX_CONFIG_BYTES).is_ok());
    let error = check_stored_length(MAX_CONFIG_BYTES + 1).expect_err("too large");
    assert_eq!(error.message(), "profile configuration is larger than the supported limit");
}

#[test]
fn invalid_configuration_errors_do_not_echo_file_contents() {
    let error = invalid_configuration_json();
    assert_eq!(error.code(), ErrorCode::InvalidInput);
    assert_eq!(error.message(), "profile configuration is not valid HostBraid JSON");
    assert!(error.hint().is_some_and(|hint| hint.contains("Back up profiles.json")));
}

#[test]
fn interrupted_replacement_restores_the_previous_configuration() {
    assert_eq!(recovery_action(false, true), RecoveryAction::RestoreBackup);
    assert_eq!(recovery_action(false, false), RecoveryAction::Nothing);
}

#[test]
fn committed_replacement_discards_a_stale_backup() {
    assert_eq!(recovery_action(true, true), RecoveryAction::DiscardStaleBackup);
    assert_eq!(recovery_action(true, false), RecoveryAction::Nothing);
}

#[test]
fn post_commit_sync_failure_does_not_report_the_replacement_as_rolled_back() {
    let synced = Cell::new(false);
    let result = commit_replacement(
        || Ok(()),
        || {
            synced.set(true);
            Err(AppError::new(ErrorCode::Io, "injected parent sync failure"))
        },
    );
    assert!(result.is_ok());
    assert!(synced.get());

    let synced = Cell::new(false);
    let result = commit_replacement(
        || Err(AppError::new(ErrorCode::Io, "rename failed")),
        || {
            synced.set(true);
            Ok(())
        },
    );
    assert_eq!(result.expect_err("rename failed").message(), "rename failed");
    assert!(!synced.get());
}

#[test]
fn unix_permissions_are_restrictive() {
    assert!(check_secured_directory(1000, 1000, 0o40700).is_ok());
    let error = check_secured_directory(1000, 1000, 0o40755).expect_err("too open");
    assert_eq!(error.message(), "profile configuration directory permissions could not be secured");
    assert!(check_secured_file("profile configuration file", true, 1, 1000, 1000, 0o100600).is_ok());
    let error = check_secured_file("profile configuration file", true, 1, 1000, 1000, 0o100644)
        .expect_err("too open");
    assert_eq!(error.message(), "profile configuration file permissions could not be secured");
}

#[test]
fn hard_linked_configuration_is_rejected_before_permissions_change() {
    let error = check_opened_file("profile configuration file", true, 2, 1000, 1000).expect_err("linked");
    assert_eq!(error.message(), "profile configuration file is not a safe regular file");
    assert!(error.hint().is_some_and(|hint| hint.contains("will not follow symlinks")));
    let error = check_opened_file("profile configuration lock", true, 1, 0, 1000).expect_err("owner");
    assert_eq!(error.message(), "profile configuration lock is not owned by the current user");
    assert!(check_opened_file("profile configuration file", true, 1, 1000, 1000).is_ok());
}

#[test]
fn configuration_home_must_be_an_owned_directory() {
    assert!(check_opened_directory(true, 1000, 1000).is_ok());
    let error = check_opened_directory(false, 1000, 1000).expect_err("not a directory");
    assert_eq!(error.message(), "profile configuration directory is not a safe directory");
    let error = check_opened_directory(true, 0, 1000).expect_err("foreign owner");
    assert_eq!(error.message(), "profile configuration directory is not owned by the current user");
}

#[test]
fn temporary_names_are_unique_per_process_and_sequence() {
    assert_eq!(temporary_file_name(42, 7), ".profiles.json.42.7.tmp");
    assert_ne!(temporary_file_name(42, 7), temporary_file_name(42, 8));
}
