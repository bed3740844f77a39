use hostbraid::error::ErrorCode;
use hostbraid::model::EnvironmentRef;
use hostbraid::provider::SshTarget;
use hostbraid::ssh::{
    encode_base64, effective_stream_capture_limit, read_bounded, BatchReport, CaptureEncoding,
    CapturedStream, ControlPool, ExecutionFailureCode, ExecutionState, IoMode, OpenSsh,
    RawCapture, TargetExecution, MAX_BATCH_CAPTURE_BYTES,
};
use hostbraid::ssh::{ReadOutcome, assemble_batch, map_spawn_error, slots_match_targets, spawn_error};

fn ssh_target(host: &str) -> SshTarget {
    SshTarget::try_new(host, 61_000, "site_user", None).expect("valid SSH target")
}

fn environment(index: usize) -> EnvironmentRef {
    EnvironmentRef::try_new("kinsta", "agency", &format!("site-{index}"), &format!("env-{index}"))
        .expect("valid environment reference")
}

fn words(items: &[&str]) -> Vec<Vec<u8>> {
    items.iter().map(|item| item.as_bytes().to_vec()).collect()
}

#[test]
fn captured_arguments_are_separate_and_preserve_host_key_policy() {
    let transport = OpenSsh::new(b"ssh".to_vec(), ControlPool::disabled());
    let command = words(&["printf", "hello; uname -a"]);

    let arguments = transport
        .build_arguments(&ssh_target("ssh.example"), &command, IoMode::Captured, true)
        .expect("arguments build");

    assert_eq!(
        arguments,
        words(&["-T", "-o", "BatchMode=yes", "-p", "61000", "site_user@ssh.example", "printf", "hello; uname -a"])
    );
    assert!(!arguments
        .iter()
        .any(|argument| String::from_utf8_lossy(argument).contains("StrictHostKeyChecking")));
}

#[test]
fn inherited_mode_does_not_force_batch_or_tty_options() {
    let transport = OpenSsh::new(b"ssh".to_vec(), ControlPool::disabled());
    let arguments = transport
        .build_arguments(&ssh_target("ssh.example"), &words(&["wp", "core"]), IoMode::Inherited, false)
        .expect("arguments build");

    assert!(!arguments.iter().any(|argument| argument == b"-T"));
    assert!(!arguments.iter().any(|argument| argument == b"BatchMode=yes"));
}

#[test]
fn working_directory_is_not_interpolated_into_a_remote_shell_string() {
    let transport = OpenSsh::new(b"ssh".to_vec(), ControlPool::disabled());
    let target = SshTarget::try_new("ssh.example", 22, "user", Some("/path/with spaces".to_owned()))
        .expect("core accepts safe absolute path");

    let error = transport
        .build_arguments(&target, &words(&["pwd"]), IoMode::Captured, false)
        .expect_err("working directory must not be interpolated");

    assert_eq!(error.code(), ErrorCode::Unsupported);
}

#[test]
fn remote_commands_are_required_outside_interactive_sessions() {
    let transport = OpenSsh::new(b"ssh".to_vec(), ControlPool::disabled());
    let error = transport
        .build_arguments(&ssh_target("ssh.example"), &[], IoMode::Captured, false)
        .expect_err("command required");
    assert_eq!(error.message(), "an SSH remote command is required");
    let error = transport
        .build_arguments(&ssh_target("ssh.example"), &[Vec::new()], IoMode::Captured, false)
        .expect_err("empty command name");
    assert_eq!(error.code(), ErrorCode::InvalidArguments);
}

#[test]
fn invalid_utf8_is_base64_encoded() {
    let captured = CapturedStream::from_raw(RawCapture {
        bytes: vec![0xff, 0x00, 0x61],
        truncated: true,
        read_failed: false,
    });

    assert_eq!(captured.encoding, CaptureEncoding::Base64);
    assert_eq!(captured.data, "/wBh");
    assert_eq!(captured.captured_bytes, 3);
    assert!(captured.truncated);
}

#[test]
fn utf8_output_is_kept_as_text() {
    let captured = CapturedStream::from_raw(RawCapture {
        bytes: "héllo\n".as_bytes().to_vec(),
        truncated: false,
        read_failed: false,
    });
    assert_eq!(captured.encoding, CaptureEncoding::Text);
    assert_eq!(captured.data, "héllo\n");
    assert_eq!(captured.captured_bytes, 7);
}

#[test]
fn base64_pads_every_tail_length() {
    assert_eq!(encode_base64(b""), "");
    assert_eq!(encode_base64(b"f"), "Zg==");
    assert_eq!(encode_base64(b"fo"), "Zm8=");
    assert_eq!(encode_base64(b"foo"), "Zm9v");
    assert_eq!(encode_base64(b"foobar"), "Zm9vYmFy");
    assert_eq!(encode_base64(&[0xff, 0x00, 0x61]), "/wBh");
    assert_eq!(encode_base64(&[0xff]), "/w==");
    assert_eq!(encode_base64(&[0xfb, 0xef, 0xbe, 0x00]).len(), 8);
}

#[test]
fn bounded_reader_keeps_draining_after_truncation() {
    let raw = read_bounded(&[ReadOutcome::Data(vec![b'x'; 32]), ReadOutcome::End], 5);

    assert_eq!(raw.bytes, b"xxxxx");
    assert!(raw.truncated);
    assert!(!raw.read_failed);
}

#[test]
fn large_batches_share_the_total_capture_budget_fairly() {
    assert_eq!(effective_stream_capture_limit(1), 1024 * 1024);
    assert_eq!(effective_stream_capture_limit(32), 1024 * 1024);
    assert_eq!(effective_stream_capture_limit(33), MAX_BATCH_CAPTURE_BYTES / 66);
}

#[test]
fn preflight_results_use_safe_failures_and_the_effective_capture_limit() {
    let unavailable = TargetExecution::target_unavailable(environment(0));
    let skipped = TargetExecution::fail_fast_skipped(environment(1));
    let report = BatchReport::from_results(
        (0..33).map(|index| TargetExecution::target_unavailable(environment(index))).collect(),
    );

    assert_eq!(unavailable.state, ExecutionState::Failed);
    assert_eq!(
        unavailable.failure.as_ref().map(|failure| failure.code),
        Some(ExecutionFailureCode::TargetUnavailable)
    );
    assert_eq!(skipped.state, ExecutionState::Skipped);
    assert_eq!(report.stream_capture_limit_bytes, effective_stream_capture_limit(33));
}

#[test]
fn a_missing_control_path_warns_and_disables_sharing() {
    let pool = ControlPool::discovered(None);
    let warning = pool.warning.as_ref().expect("warning");
    assert_eq!(warning.code, "ssh_pool_unavailable");
    let shared = ControlPool::discovered(Some(b"/run/hostbraid-ssh/%C".to_vec()));
    assert!(shared.warning.is_none());
}

#[test]
fn spawn_failures_name_a_missing_client_or_the_io_kind() {
    let missing = spawn_error("NotFound");
    assert_eq!(missing.code(), ErrorCode::DependencyMissing);
    assert_eq!(missing.message(), "a local OpenSSH client could not be found");
    assert_eq!(missing.hint(), Some("Install OpenSSH and ensure `ssh` is available on PATH."));
    let denied = spawn_error("PermissionDenied");
    assert_eq!(denied.code(), ErrorCode::Io);
    assert_eq!(denied.message(), "could not start the local SSH client (PermissionDenied)");
    assert_eq!(denied.hint(), None);

    let not_found = map_spawn_error(&std::io::Error::from(std::io::ErrorKind::NotFound));
    assert_eq!(not_found.code(), ErrorCode::DependencyMissing);
    let refused = map_spawn_error(&std::io::Error::from(std::io::ErrorKind::PermissionDenied));
    assert_eq!(refused.code(), ErrorCode::Io);
    assert_eq!(refused.message(), "could not start the local SSH client (PermissionDenied)");
}

#[test]
fn batch_results_keep_target_order() {
    let environments = vec![environment(0), environment(1), environment(2)];
    let started = TargetExecution::skipped(environment(1), false);
    let slots = vec![None, Some(started), None];
    assert!(slots_match_targets(&slots, &environments));
    let report = assemble_batch(slots, &environments, true);
    assert_eq!(report.results.len(), 3);
    for (index, result) in report.results.iter().enumerate() {
        assert_eq!(result.environment, environments[index]);
    }
    assert_eq!(report.results[1].state, ExecutionState::Skipped);
    assert_eq!(report.results[0].state, ExecutionState::Cancelled);

    let misplaced = vec![Some(TargetExecution::skipped(environment(2), false)), None, None];
    assert!(!slots_match_targets(&misplaced, &environments));
    assert!(!slots_match_targets(&vec![None, None], &environments));
}

#[test]
fn bounded_reader_retries_interruptions_and_notes_failures() {
    let reads = [
        ReadOutcome::Data(b"abc".to_vec()),
        ReadOutcome::Interrupted,
        ReadOutcome::Data(b"defg".to_vec()),
        ReadOutcome::End,
        ReadOutcome::Data(b"never".to_vec()),
    ];
    let raw = read_bounded(&reads, 5);
    assert_eq!(raw.bytes, b"abcde");
    assert!(raw.truncated);
    assert!(!raw.read_failed);

    let failing = read_bounded(&[ReadOutcome::Data(b"ab".to_vec()), ReadOutcome::Failed], 5);
    assert_eq!(failing.bytes, b"ab");
    assert!(!failing.truncated);
    assert!(failing.read_failed);
}
