use hostbraid::error::{AppError, ErrorCode};
use hostbraid::machine::{MachineFailure, MachineSuccess, MachineWarning, MACHINE_SCHEMA_VERSION};
use hostbraid::model::{EnvironmentRef, OpaqueId, ProfileName, ProviderId};
use hostbraid::provider::{Capability, SshTarget};
use hostbraid::text::{terminal_output_safe, terminal_safe};

#[test]
fn error_codes_have_stable_names_and_exit_statuses() {
    assert_eq!(ErrorCode::AmbiguousTarget.to_string(), "ambiguous_target");
    assert_eq!(ErrorCode::AmbiguousTarget.exit_code(), 2);
    assert_eq!(ErrorCode::AuthenticationFailed.exit_code(), 4);
}

#[test]
fn every_error_code_has_its_documented_exit_status() {
    assert_eq!(ErrorCode::InvalidArguments.exit_code(), 2);
    assert_eq!(ErrorCode::DependencyMissing.exit_code(), 3);
    assert_eq!(ErrorCode::ProviderUnavailable.exit_code(), 5);
    assert_eq!(ErrorCode::Unavailable.exit_code(), 5);
    assert_eq!(ErrorCode::PolicyDenied.exit_code(), 6);
    assert_eq!(ErrorCode::Internal.exit_code(), 1);
    assert_eq!(ErrorCode::RemoteExecutionFailed.as_str(), "remote_execution_failed");
}

#[test]
fn provider_ids_are_normalized_slugs() {
    assert!(ProviderId::new("kinsta").is_ok());
    assert!(ProviderId::new("Kinsta").is_err());
    assert!(ProviderId::new("kinsta api").is_err());
}

#[test]
fn profile_names_are_human_friendly_but_bounded() {
    assert!(ProfileName::new("agency-se").is_ok());
    assert!(ProfileName::new("agency/se").is_err());
}

#[test]
fn opaque_ids_reject_controls_and_surrounding_space() {
    assert!(OpaqueId::new("site_1").is_ok());
    assert!(OpaqueId::new("line\nbreak").is_err());
    assert!(OpaqueId::new(" padded").is_err());
    assert!(EnvironmentRef::try_new("kinsta", "agency", "site", "").is_err());
}

#[test]
fn capability_distinguishes_support_from_availability() {
    let disabled = Capability::unavailable(
        "connection.ssh",
        1,
        "ssh_disabled",
        Some("Enable SSH in the provider dashboard".to_owned()),
    );

    assert!(disabled.supported);
    assert!(!disabled.available);
    assert_eq!(disabled.reason.as_deref(), Some("ssh_disabled"));

    let unsupported = Capability::unsupported("connection.ssh", 1);
    assert!(!unsupported.supported && !unsupported.available);
    let available = Capability::available("connection.ssh", 1);
    assert!(available.supported && available.available);
}

#[test]
fn ssh_target_rejects_option_and_terminal_injection() {
    assert!(SshTarget::try_new("-oProxyCommand=bad", 22, "user", None).is_err());
    assert!(SshTarget::try_new("host.example", 22, "user\nroot", None).is_err());
    assert!(SshTarget::try_new("host.example", 22, "user", Some("relative/path".to_owned())).is_err());
}

#[test]
fn ssh_target_accepts_hostname_ipv6_and_absolute_path() {
    let hostname = SshTarget::try_new("host.example", 61000, "site_user", Some("/www/site/public".to_owned()))
        .expect("valid hostname target");
    let ipv6 = SshTarget::try_new("[2001:db8::1]", 22, "site-user", None).expect("valid IPv6 target");

    assert_eq!(hostname.host(), "host.example");
    assert_eq!(hostname.port(), 61000);
    assert_eq!(hostname.working_directory(), Some("/www/site/public"));
    assert_eq!(ipv6.user(), "site-user");
}

#[test]
fn terminal_text_escapes_controls_and_bidi_overrides() {
    assert_eq!(terminal_safe("site\nname\u{202e}txt"), "site\\u{a}name\\u{202e}txt");
}

#[test]
fn captured_output_keeps_lines_but_escapes_terminal_sequences() {
    assert_eq!(terminal_output_safe("first\nsecond\u{1b}[31m"), "first\nsecond\\u{1b}[31m");
}

#[test]
fn envelopes_carry_the_schema_version_and_no_failure_data() {
    let success = MachineSuccess::new("doctor", 7u8, vec![MachineWarning::new("w", "m")], "1.2.3");
    assert_eq!(success.schema_version, MACHINE_SCHEMA_VERSION);
    assert!(success.ok);
    assert_eq!(success.meta.cli_version, "1.2.3");
    let failure = MachineFailure::new("doctor", AppError::new(ErrorCode::Io, "broken"), "1.2.3");
    assert!(!failure.ok);
    assert!(failure.warnings.is_empty());
    assert_eq!(failure.error.message(), "broken");
}

#[test]
fn io_errors_name_their_kind() {
    let error = AppError::io("failed to write output", &std::io::Error::from(std::io::ErrorKind::BrokenPipe));
    assert_eq!(error.code(), ErrorCode::Io);
    assert_eq!(error.message(), "failed to write output (BrokenPipe)");
    assert_eq!(error.hint(), None);
    assert_eq!(AppError::io_kind("x", "TimedOut").message(), "x (TimedOut)");
}
