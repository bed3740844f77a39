use hostbraid::doctor::{
    build_report, check_detail, extract_version, healthy, missing_check, probe_wait_step, probes,
    read_bounded, report_warnings, tool_check, CapturedOutput, ProbeOutcome, ProbePoll,
    Requirement, ToolCheck, TransferStrategies, CAPTURE_LIMIT,
};

fn check(name: &'static str, healthy: bool) -> ToolCheck {
    ToolCheck {
        name,
        requirement: Requirement::Fallback,
        available: healthy,
        healthy,
        timed_out: false,
        exit_code: Some(0),
        output_truncated: false,
        version: None,
        purpose: "test",
        install_hint: "test",
    }
}

#[test]
fn transfer_readiness_requires_a_complete_strategy() {
    let tar_only = vec![check("ssh", false), check("tar", true)];
    let ssh_and_tar = vec![check("ssh", true), check("tar", true)];
    let sftp = vec![check("sftp", true)];

    let strategies = |checks: &[ToolCheck]| TransferStrategies {
        rsync_over_ssh: healthy(checks, "ssh") && healthy(checks, "rsync"),
        sftp: healthy(checks, "sftp"),
        tar_over_ssh: healthy(checks, "ssh") && healthy(checks, "tar"),
    };
    assert!(!strategies(&tar_only).any());
    assert!(strategies(&ssh_and_tar).any());
    assert!(strategies(&sftp).any());
}

#[test]
fn diagnostic_capture_drains_but_bounds_memory() {
    let input = vec![b'x'; CAPTURE_LIMIT * 3];
    let CapturedOutput { bytes, truncated } = read_bounded(&[input]);

    assert_eq!(bytes.len(), CAPTURE_LIMIT);
    assert!(truncated);
}

#[test]
fn capture_below_the_limit_is_kept_whole() {
    let CapturedOutput { bytes, truncated } = read_bounded(&[b"ab".to_vec(), b"cd".to_vec()]);
    assert_eq!(bytes, b"abcd".to_vec());
    assert!(!truncated);
}

#[test]
fn probes_cover_every_transfer_tool_in_report_order() {
    let names: Vec<&str> = probes().iter().map(|p| p.name).collect();
    assert_eq!(names, vec!["ssh", "rsync", "sftp", "tar", "wp"]);
    assert_eq!(Requirement::Fallback.label(), "fallback");
    assert_eq!(Requirement::Required.label(), "required");
}

#[test]
fn version_is_the_first_nonblank_trimmed_line() {
    assert_eq!(extract_version("\n  \n  OpenSSH_9.6p1  \nmore\n"), Some("OpenSSH_9.6p1".to_owned()));
    assert_eq!(extract_version(" \n\t\n"), None);
    let long = "v".repeat(200);
    assert_eq!(extract_version(&long).map(|v| v.chars().count()), Some(160));
}

#[test]
fn a_probe_reads_its_version_from_stdout_then_stderr() {
    let probe = &probes()[0];
    let stdout = CapturedOutput { bytes: Vec::new(), truncated: false };
    let stderr = CapturedOutput { bytes: b"OpenSSH_9.6p1, OpenSSL 3.0\n".to_vec(), truncated: true };
    let check = tool_check(probe, ProbeOutcome::Exited { success: true, code: Some(0) }, &stdout, &stderr);
    assert!(check.available && check.healthy && !check.timed_out);
    assert_eq!(check.version.as_deref(), Some("OpenSSH_9.6p1, OpenSSL 3.0"));
    assert!(check.output_truncated);
    assert_eq!(check_detail(&check), "OpenSSH_9.6p1, OpenSSL 3.0 (output truncated)");
}

#[test]
fn sftp_is_healthy_even_when_its_help_probe_fails() {
    let probe = &probes()[2];
    let empty = CapturedOutput { bytes: Vec::new(), truncated: false };
    let check = tool_check(probe, ProbeOutcome::Exited { success: false, code: Some(1) }, &empty, &empty);
    assert!(check.healthy);
    assert_eq!(check.version, None);
}

#[test]
fn failed_and_timed_out_probes_explain_themselves() {
    let probe = &probes()[1];
    let empty = CapturedOutput { bytes: Vec::new(), truncated: false };
    let failed = tool_check(probe, ProbeOutcome::Exited { success: false, code: Some(-2) }, &empty, &empty);
    assert!(!failed.healthy);
    assert_eq!(check_detail(&failed), "diagnostic probe exited with status -2");
    let timed_out = tool_check(probe, ProbeOutcome::TimedOut, &empty, &empty);
    assert!(timed_out.timed_out && !timed_out.healthy);
    assert_eq!(check_detail(&timed_out), "diagnostic probe timed out");
    let missing = missing_check(probe);
    assert_eq!(check_detail(&missing), "Install rsync for the preferred pull strategy.");
}

#[test]
fn waiting_stops_at_exit_deadline_or_failure() {
    assert_eq!(probe_wait_step(ProbePoll::Running, true), None);
    assert_eq!(probe_wait_step(ProbePoll::Running, false), Some(ProbeOutcome::TimedOut));
    assert_eq!(probe_wait_step(ProbePoll::Failed, true), Some(ProbeOutcome::WaitFailed));
    assert_eq!(
        probe_wait_step(ProbePoll::Exited { success: true, code: Some(0) }, false),
        Some(ProbeOutcome::Exited { success: true, code: Some(0) })
    );
}

#[test]
fn report_warns_about_missing_ssh_transfer_and_timeouts() {
    let mut slow = check("wp", false);
    slow.timed_out = true;
    let report = build_report(vec![check("ssh", false), slow]);
    assert!(!report.ready_for_ssh);
    assert!(!report.transfer_strategy_available);
    assert!(!report.wp_cli_available);
    let warnings = report_warnings(&report);
    let codes: Vec<&str> = warnings.iter().map(|w| w.code.as_str()).collect();
    assert_eq!(codes, vec!["ssh_unavailable", "transfer_strategy_unavailable", "tool_probe_timeout"]);
    assert_eq!(warnings[2].message, "The `wp` diagnostic probe timed out");

    let ready = build_report(vec![check("ssh", true), check("rsync", true)]);
    assert!(ready.ready_for_ssh && ready.transfer_strategies.rsync_over_ssh);
    assert!(report_warnings(&ready).is_empty());
}
