use hostbraid::cli::{
    command_exit_status, duration_nanos, invalid_arguments_error, parse_duration,
    parse_failure_command, parser_exit_status, requested_output, scan_machine_output,
    ssh_run_remote_boundary,
};
use hostbraid::error::{AppError, ErrorCode};
use hostbraid::remote::CommandOutcome;

/// A parse failure exits with the parser's status 2 and reports `cli.parse` with the curated
/// `invalid_arguments` error.
fn assert_parse_failure_report() {
    assert_eq!(parser_exit_status(2), 2);
    assert_eq!(parse_failure_command(), "cli.parse");
    let error = invalid_arguments_error();
    assert_eq!(error.code().as_str(), "invalid_arguments");
    assert_eq!(error.code().exit_code(), 2);
    assert_eq!(error.message(), "command-line arguments were invalid");
}

fn args(items: &[&str]) -> Vec<Option<String>> {
    std::iter::once("hostbraid").chain(items.iter().copied()).map(|item| Some(item.to_owned())).collect()
}

#[test]
fn clustered_short_output_is_detected_for_parse_failures() {
    assert_parse_failure_report();
    assert!(scan_machine_output(&args(&["-qojson", "definitely-not-a-command"]), None));
}

#[test]
fn explicit_human_output_overrides_a_machine_environment_default() {
    assert_parse_failure_report();
    assert!(!scan_machine_output(&args(&["--output", "human", "definitely-not-a-command"]), Some("json")));
    assert!(scan_machine_output(&args(&["definitely-not-a-command"]), Some("json")));
    assert!(!scan_machine_output(&args(&["definitely-not-a-command"]), None));
}

#[test]
fn trailing_remote_arguments_do_not_override_machine_parse_errors() {
    assert_parse_failure_report();
    assert!(scan_machine_output(&args(&["ssh", "run", "--jobs", "0", "echo", "--output", "human"]), Some("json")));
}

#[test]
fn ssh_words_inside_another_command_do_not_hide_global_output() {
    assert_parse_failure_report();
    assert!(scan_machine_output(&args(&["search", "ssh", "run", "echo", "--output", "json"]), None));
}

#[test]
fn non_utf8_remote_commands_do_not_expose_trailing_output_options() {
    assert_parse_failure_report();
    let mut arguments = args(&["ssh", "run", "--jobs", "0"]);
    arguments.push(None);
    arguments.push(Some("--output".to_owned()));
    arguments.push(Some("human".to_owned()));
    assert!(scan_machine_output(&arguments, Some("json")));
}

#[test]
fn the_remote_command_starts_after_the_ssh_run_options() {
    assert_eq!(ssh_run_remote_boundary(&args(&["ssh", "run", "--all", "echo", "hi"])), Some(4));
    assert_eq!(ssh_run_remote_boundary(&args(&["ssh", "run", "--jobs", "3", "echo"])), Some(5));
    assert_eq!(ssh_run_remote_boundary(&args(&["search", "ssh"])), None);
}

#[test]
fn output_values_and_durations_parse_strictly() {
    assert_eq!(requested_output("json"), Some(true));
    assert_eq!(requested_output("human"), Some(false));
    assert_eq!(requested_output("JSON"), None);
    let duration = parse_duration("90s").expect("duration");
    assert_eq!(duration_nanos(duration), 90_000_000_000);
    assert_eq!(parse_duration("0s").expect_err("zero"), "duration must be greater than zero");
    assert_eq!(
        parse_duration("soon").expect_err("garbage"),
        "duration must be a positive value such as `30s`, `5m`, or `1h`"
    );
}

#[test]
fn durations_beyond_the_parser_bound_are_refused_before_parsing() {
    assert_eq!(
        parse_duration("18446744073709551615s 1000ms").expect_err("overflowing sum"),
        "duration must be a positive value such as `30s`, `5m`, or `1h`"
    );
    assert!(parse_duration("1000000000000ns").is_err());
    let large = parse_duration("100000000000s").expect("within the bound");
    assert_eq!(duration_nanos(large), 100_000_000_000_000_000_000);
    let padded = parse_duration("000000000000090s").expect("leading zeros spell a small number");
    assert_eq!(duration_nanos(padded), 90_000_000_000);
    let mixed = parse_duration("1h 30m 15s").expect("components");
    assert_eq!(duration_nanos(mixed), 5_415_000_000_000);
}

#[test]
fn exit_statuses_follow_the_outcome() {
    assert_eq!(command_exit_status(&Ok(CommandOutcome::Success)), 0);
    assert_eq!(command_exit_status(&Ok(CommandOutcome::Exit(7))), 7);
    assert_eq!(command_exit_status(&Err(AppError::new(ErrorCode::PolicyDenied, "no"))), 6);
    assert_eq!(parser_exit_status(2), 2);
    assert_eq!(parser_exit_status(300), 1);
    let error = invalid_arguments_error();
    assert_eq!(error.code(), ErrorCode::InvalidArguments);
    assert_eq!(error.hint(), Some("Run `hostbraid --help` or `hostbraid search <term>`."));
}
