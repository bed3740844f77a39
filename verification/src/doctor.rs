//! `doctor`: which local tools were found, whether they are healthy, and which workflows they
//! make ready. Spawning the probes stays with the caller.
use crate::machine::MachineWarning;
use crate::ssh::{joined, min_int};
use crate::text::{chars_of, push_char, push_signed_decimal, push_str, signed_decimal, str_eq, trim, trimmed};
use vstd::prelude::*;
use vstd::utf8::{decode_utf8, valid_utf8};

verus! {

/// Bytes kept from each probe stream.
pub const CAPTURE_LIMIT: usize = 4096;

/// Characters kept from a tool's version line.
pub const VERSION_LIMIT: usize = 160;

/// How much a workflow depends on a tool.
#[derive(Debug, Clone, Copy, PartialEq, Eq, Structural)]
pub enum Requirement {
    Required,
    Recommended,
    Optional,
    Fallback,
}

impl Requirement {
    pub fn label(self) -> (r: &'static str)
        ensures
            r@ == match self {
                Requirement::Required => "required"@,
                Requirement::Recommended => "recommended"@,
                Requirement::Optional => "optional"@,
                Requirement::Fallback => "fallback"@,
            },
    {
        match self {
            Requirement::Required => "required",
            Requirement::Recommended => "recommended",
            Requirement::Optional => "optional",
            Requirement::Fallback => "fallback",
        }
    }
}

/// One local tool to probe.
#[derive(Debug)]
pub struct ToolProbe {
    pub name: &'static str,
    pub arguments: Vec<&'static str>,
    pub success_required: bool,
    pub capture_version: bool,
    pub requirement: Requirement,
    pub purpose: &'static str,
    pub install_hint: &'static str,
}

/// The probed tools, in report order.
pub fn probes() -> (r: Vec<ToolProbe>)
    ensures
        r@.len() == 5,
        r@[0].name@ == "ssh"@ && r@[0].requirement == Requirement::Required
            && r@[0].success_required,
        r@[1].name@ == "rsync"@ && r@[1].requirement == Requirement::Recommended,
        r@[2].name@ == "sftp"@ && r@[2].requirement == Requirement::Fallback
            && !r@[2].success_required && !r@[2].capture_version,
        r@[3].name@ == "tar"@ && r@[3].requirement == Requirement::Fallback,
        r@[4].name@ == "wp"@ && r@[4].requirement == Requirement::Optional,
{
    let mut out: Vec<ToolProbe> = Vec::new();
    out.push(
        ToolProbe {
            name: "ssh",
            arguments: vec!["-V"],
            success_required: true,
            capture_version: true,
            requirement: Requirement::Required,
            purpose: "Interactive access and remote command transport",
            install_hint: "Install an OpenSSH client.",
        },
    );
    out.push(
        ToolProbe {
            name: "rsync",
            arguments: vec!["--version"],
            success_required: true,
            capture_version: true,
            requirement: Requirement::Recommended,
            purpose: "Efficient, resumable file pulls",
            install_hint: "Install rsync for the preferred pull strategy.",
        },
    );
    // OpenSSH sftp exits unsuccessfully for its help probe on some platforms; starting it and
    // getting bounded help output is enough to show that this fallback is available.
    out.push(
        ToolProbe {
            name: "sftp",
            arguments: vec!["-h"],
            success_required: false,
            capture_version: false,
            requirement: Requirement::Fallback,
            purpose: "File transfer when rsync is unavailable",
            install_hint: "Install the OpenSSH client tools.",
        },
    );
    out.push(
        ToolProbe {
            name: "tar",
            arguments: vec!["--version"],
            success_required: true,
            capture_version: true,
            requirement: Requirement::Fallback,
            purpose: "Streaming file-transfer fallback over SSH",
            install_hint: "Install a tar implementation.",
        },
    );
    out.push(
        ToolProbe {
            name: "wp",
            arguments: vec!["cli", "version"],
            success_required: true,
            capture_version: true,
            requirement: Requirement::Optional,
            purpose: "WordPress operations delegated to WP-CLI",
            install_hint: "Install WP-CLI when remote WordPress commands are needed.",
        },
    );
    out
}

/// The result of one probe.
#[derive(Debug)]
pub struct ToolCheck {
    pub name: &'static str,
    pub requirement: Requirement,
    pub available: bool,
    pub healthy: bool,
    pub timed_out: bool,
    pub exit_code: Option<i32>,
    pub output_truncated: bool,
    pub version: Option<String>,
    pub purpose: &'static str,
    pub install_hint: &'static str,
}

/// A tool that could not be started.
pub fn missing_check(probe: &ToolProbe) -> (r: ToolCheck)
    ensures
        r.name == probe.name,
        r.requirement == probe.requirement,
        !r.available && !r.healthy && !r.timed_out && !r.output_truncated,
        r.exit_code is None,
        r.version is None,
        r.purpose == probe.purpose,
        r.install_hint == probe.install_hint,
{
    ToolCheck {
        name: probe.name,
        requirement: probe.requirement,
        available: false,
        healthy: false,
        timed_out: false,
        exit_code: None,
        output_truncated: false,
        version: None,
        purpose: probe.purpose,
        install_hint: probe.install_hint,
    }
}

// ---------------------------------------------------------------------------------------------
// Probe output
// ---------------------------------------------------------------------------------------------
/// Bounded output of one probe stream.
#[derive(Debug)]
pub struct CapturedOutput {
    pub bytes: Vec<u8>,
    pub truncated: bool,
}

/// Keep at most `CAPTURE_LIMIT` bytes of a stream delivered as successive reads, while reading
/// all of it.
pub fn read_bounded(reads: &[Vec<u8>]) -> (r: CapturedOutput)
    ensures
        r.bytes@ == joined(reads@.map_values(|v: Vec<u8>| v@)).take(
            min_int(CAPTURE_LIMIT as int, joined(reads@.map_values(|v: Vec<u8>| v@)).len() as int),
        ),
        r.truncated == (joined(reads@.map_values(|v: Vec<u8>| v@)).len() > CAPTURE_LIMIT),
{
    let raw = crate::ssh::read_chunks(reads, CAPTURE_LIMIT);
    CapturedOutput { bytes: raw.bytes, truncated: raw.truncated }
}

/// What `String::from_utf8_lossy` returns for the given bytes.
pub uninterp spec fn utf8_lossy(bytes: Seq<u8>) -> Seq<char>;

/// `String::from_utf8_lossy`: the text of the bytes, with each invalid sequence replaced.
#[verifier::external_body]
fn lossy_text(bytes: &[u8]) -> (r: String)
    ensures
        r@ == utf8_lossy(bytes@),
        valid_utf8(bytes@) ==> r@ == decode_utf8(bytes@),
{
    String::from_utf8_lossy(bytes).into_owned()
}

/// The first line of `s` (after the partial line `current`) that is not blank once trimmed.
pub open spec fn first_nonblank(s: Seq<char>, current: Seq<char>) -> Option<Seq<char>>
    decreases s.len(),
{
    if s.len() == 0 {
        if trimmed(current).len() > 0 {
            Some(trimmed(current))
        } else {
            None
        }
    } else if s[0] == '\n' {
        if trimmed(current).len() > 0 {
            Some(trimmed(current))
        } else {
            first_nonblank(s.drop_first(), Seq::empty())
        }
    } else {
        first_nonblank(s.drop_first(), current.push(s[0]))
    }
}

/// The version line of a probe's output: the first non-blank line, trimmed and cut to 160
/// characters.
pub open spec fn version_line(output: Seq<char>) -> Option<Seq<char>> {
    match first_nonblank(output, Seq::empty()) {
        Some(line) => Some(line.take(min_int(VERSION_LIMIT as int, line.len() as int))),
        None => None,
    }
}

fn take_chars(value: &str, limit: usize) -> (r: String)
    ensures
        r@ == value@.take(min_int(limit as int, value@.len() as int)),
{
    let chars = chars_of(value);
    let end = if limit < chars.len() {
        limit
    } else {
        chars.len()
    };
    let mut out = String::new();
    let mut i: usize = 0;
    while i < end
        invariant
            end <= chars@.len(),
            chars@ == value@,
            i <= end,
            out@ == chars@.take(i as int),
        decreases end - i,
    {
        push_char(&mut out, chars[i]);
        assert(chars@.take(i + 1) =~= chars@.take(i as int).push(chars@[i as int]));
        i = i + 1;
    }
    out
}

/// Find the version line of a probe's output.
pub fn extract_version(output: &str) -> (r: Option<String>)
    ensures
        match version_line(output@) {
            Some(line) => r matches Some(v) && v@ == line,
            None => r is None,
        },
{
    let chars = chars_of(output);
    let mut current = String::new();
    let mut i: usize = 0;
    assert(chars@.skip(0) =~= chars@);
    while i < chars.len()
        invariant
            chars@ == output@,
            i <= chars@.len(),
            first_nonblank(output@, Seq::empty()) == first_nonblank(chars@.skip(i as int), current@),
        decreases chars@.len() - i,
    {
        assert(chars@.skip(i as int).drop_first() =~= chars@.skip(i + 1));
        if chars[i] == '\n' {
            let t = trim(current.as_str());
            if !t.as_str().is_empty() {
                return Some(take_chars(t.as_str(), VERSION_LIMIT));
            }
            current = String::new();
        } else {
            push_char(&mut current, chars[i]);
        }
        i = i + 1;
    }
    let t = trim(current.as_str());
    if !t.as_str().is_empty() {
        return Some(take_chars(t.as_str(), VERSION_LIMIT));
    }
    None
}

/// How a probe ended.
#[derive(Debug, Clone, Copy, PartialEq, Eq, Structural)]
pub enum ProbeOutcome {
    Exited { success: bool, code: Option<i32> },
    TimedOut,
    WaitFailed,
}

/// One poll of a running probe, as observed.
#[derive(Debug, Clone, Copy, PartialEq, Eq, Structural)]
pub enum ProbePoll {
    Exited { success: bool, code: Option<i32> },
    Running,
    Failed,
}

/// Decide after one poll: an exit is final; a running probe is given up after its deadline;
/// a failed poll ends the probe. `None` means keep waiting.
pub fn probe_wait_step(poll: ProbePoll, before_deadline: bool) -> (r: Option<ProbeOutcome>)
    ensures
        r == match poll {
            ProbePoll::Exited { success, code } => Some(ProbeOutcome::Exited { success, code }),
            ProbePoll::Running => if before_deadline {
                None
            } else {
                Some(ProbeOutcome::TimedOut)
            },
            ProbePoll::Failed => Some(ProbeOutcome::WaitFailed),
        },
{
    match poll {
        ProbePoll::Exited { success, code } => Some(ProbeOutcome::Exited { success, code }),
        ProbePoll::Running => if before_deadline {
            None
        } else {
            Some(ProbeOutcome::TimedOut)
        },
        ProbePoll::Failed => Some(ProbeOutcome::WaitFailed),
    }
}

/// The combined output a version is read from: stdout, a newline, then stderr.
pub open spec fn combined_output(stdout: Seq<u8>, stderr: Seq<u8>) -> Seq<char> {
    utf8_lossy(stdout) + seq!['\n'] + utf8_lossy(stderr)
}

/// The check of a tool that was started.
pub fn tool_check(
    probe: &ToolProbe,
    outcome: ProbeOutcome,
    stdout: &CapturedOutput,
    stderr: &CapturedOutput,
) -> (r: ToolCheck)
    ensures
        r.name == probe.name,
        r.requirement == probe.requirement,
        r.available,
        r.output_truncated == (stdout.truncated || stderr.truncated),
        r.purpose == probe.purpose,
        r.install_hint == probe.install_hint,
        match outcome {
            ProbeOutcome::Exited { success, code } => r.healthy == (!probe.success_required
                || success) && !r.timed_out && r.exit_code == code,
            ProbeOutcome::TimedOut => !r.healthy && r.timed_out && r.exit_code is None,
            ProbeOutcome::WaitFailed => !r.healthy && !r.timed_out && r.exit_code is None,
        },
        probe.capture_version ==> match version_line(combined_output(stdout.bytes@, stderr.bytes@)) {
            Some(line) => r.version matches Some(v) && v@ == line,
            None => r.version is None,
        },
        !probe.capture_version ==> r.version is None,
{
    let version = if probe.capture_version {
        let mut combined = lossy_text(stdout.bytes.as_slice());
        push_char(&mut combined, '\n');
        let err_text = lossy_text(stderr.bytes.as_slice());
        push_str(&mut combined, err_text.as_str());
        assert(combined@ =~= combined_output(stdout.bytes@, stderr.bytes@));
        extract_version(combined.as_str())
    } else {
        None
    };
    let (healthy, timed_out, exit_code) = match outcome {
        ProbeOutcome::Exited { success, code } => (!probe.success_required || success, false, code),
        ProbeOutcome::TimedOut => (false, true, None),
        ProbeOutcome::WaitFailed => (false, false, None),
    };
    ToolCheck {
        name: probe.name,
        requirement: probe.requirement,
        available: true,
        healthy,
        timed_out,
        exit_code,
        output_truncated: stdout.truncated || stderr.truncated,
        version,
        purpose: probe.purpose,
        install_hint: probe.install_hint,
    }
}

// ---------------------------------------------------------------------------------------------
// Report
// ---------------------------------------------------------------------------------------------
/// Some healthy check has this tool name.
pub open spec fn is_healthy(checks: Seq<ToolCheck>, name: Seq<char>) -> bool {
    exists|i: int| 0 <= i < checks.len() && #[trigger] checks[i].name@ == name && checks[i].healthy
}

pub fn healthy(checks: &[ToolCheck], name: &str) -> (r: bool)
    ensures
        r == is_healthy(checks@, name@),
{
    let mut i: usize = 0;
    while i < checks.len()
        invariant
            i <= checks@.len(),
            forall|k: int| 0 <= k < i ==> !(#[trigger] checks@[k].name@ == name@ && checks@[k].healthy),
        decreases checks@.len() - i,
    {
        if str_eq(checks[i].name, name) && checks[i].healthy {
            return true;
        }
        i = i + 1;
    }
    false
}

/// Complete ways to move files: each needs its tool, and the SSH-borne ones need SSH too.
#[derive(Debug, Clone, Copy, PartialEq, Eq, Structural)]
pub struct TransferStrategies {
    pub rsync_over_ssh: bool,
    pub sftp: bool,
    pub tar_over_ssh: bool,
}

impl TransferStrategies {
    pub fn any(&self) -> (r: bool)
        ensures
            r == (self.rsync_over_ssh || self.sftp || self.tar_over_ssh),
    {
        self.rsync_over_ssh || self.sftp || self.tar_over_ssh
    }
}

/// The strategies the checks make complete.
pub open spec fn strategies_of(checks: Seq<ToolCheck>) -> TransferStrategies {
    TransferStrategies {
        rsync_over_ssh: is_healthy(checks, "ssh"@) && is_healthy(checks, "rsync"@),
        sftp: is_healthy(checks, "sftp"@),
        tar_over_ssh: is_healthy(checks, "ssh"@) && is_healthy(checks, "tar"@),
    }
}

pub fn transfer_strategies(checks: &[ToolCheck]) -> (r: TransferStrategies)
    ensures
        r == strategies_of(checks@),
{
    let ssh = healthy(checks, "ssh");
    TransferStrategies {
        rsync_over_ssh: ssh && healthy(checks, "rsync"),
        sftp: healthy(checks, "sftp"),
        tar_over_ssh: ssh && healthy(checks, "tar"),
    }
}

/// A transfer is ready only with a complete strategy: rsync or tar alone are not enough without
/// SSH, while sftp carries its own transport.
pub proof fn lemma_transfer_needs_complete_strategy(checks: Seq<ToolCheck>)
    ensures
        (strategies_of(checks).rsync_over_ssh || strategies_of(checks).sftp || strategies_of(
            checks,
        ).tar_over_ssh) <==> (is_healthy(checks, "sftp"@) || (is_healthy(checks, "ssh"@) && (
        is_healthy(checks, "rsync"@) || is_healthy(checks, "tar"@)))),
{
}

/// The doctor report.
#[derive(Debug)]
pub struct DoctorReport {
    pub ready_for_ssh: bool,
    pub transfer_strategy_available: bool,
    pub wp_cli_available: bool,
    pub transfer_strategies: TransferStrategies,
    pub checks: Vec<ToolCheck>,
}

/// Summarize the checks.
pub fn build_report(checks: Vec<ToolCheck>) -> (r: DoctorReport)
    ensures
        r.checks@ == checks@,
        r.ready_for_ssh == is_healthy(checks@, "ssh"@),
        r.transfer_strategies == strategies_of(checks@),
        r.transfer_strategy_available == (r.transfer_strategies.rsync_over_ssh
            || r.transfer_strategies.sftp || r.transfer_strategies.tar_over_ssh),
        r.wp_cli_available == is_healthy(checks@, "wp"@),
{
    let ready_for_ssh = healthy(checks.as_slice(), "ssh");
    let transfer_strategies = transfer_strategies(checks.as_slice());
    let wp_cli_available = healthy(checks.as_slice(), "wp");
    DoctorReport {
        ready_for_ssh,
        transfer_strategy_available: transfer_strategies.any(),
        wp_cli_available,
        transfer_strategies,
        checks,
    }
}

/// The message of a timed-out probe.
pub open spec fn timeout_message(name: Seq<char>) -> Seq<char> {
    "The `"@ + name + "` diagnostic probe timed out"@
}

/// Warnings of a report: no SSH, no transfer strategy, then each timed-out probe in order.
pub fn report_warnings(report: &DoctorReport) -> (r: Vec<MachineWarning>)
    ensures
        ({
            let lead = (if report.ready_for_ssh {
                0int
            } else {
                1int
            }) + (if report.transfer_strategy_available {
                0int
            } else {
                1int
            });
            &&& r@.len() == lead + report.checks@.filter(|c: ToolCheck| c.timed_out).len()
            &&& !report.ready_for_ssh ==> r@[0].code@ == "ssh_unavailable"@ && r@[0].message@
                == "A healthy OpenSSH client was not found; SSH workflows will not work"@
            &&& !report.transfer_strategy_available ==> r@[lead - 1].code@
                == "transfer_strategy_unavailable"@ && r@[lead - 1].message@
                == "No complete local transfer strategy was found"@
            &&& forall|k: int|
                0 <= k < report.checks@.filter(|c: ToolCheck| c.timed_out).len() ==> (#[trigger] r@[lead
                    + k]).code@ == "tool_probe_timeout"@ && r@[lead + k].message@ == timeout_message(
                    report.checks@.filter(|c: ToolCheck| c.timed_out)[k].name@,
                )
        }),
{
    let mut warnings: Vec<MachineWarning> = Vec::new();
    if !report.ready_for_ssh {
        warnings.push(
            MachineWarning::new(
                "ssh_unavailable",
                "A healthy OpenSSH client was not found; SSH workflows will not work",
            ),
        );
    }
    if !report.transfer_strategy_available {
        warnings.push(
            MachineWarning::new(
                "transfer_strategy_unavailable",
                "No complete local transfer strategy was found",
            ),
        );
    }
    let lead = warnings.len();
    let ghost pred = |c: ToolCheck| c.timed_out;
    let ghost checks = report.checks@;
    let mut i: usize = 0;
    proof {
        reveal(Seq::filter);
        assert(checks.take(0).filter(pred) =~= Seq::<ToolCheck>::empty());
    }
    while i < report.checks.len()
        invariant
            checks == report.checks@,
            pred == (|c: ToolCheck| c.timed_out),
            i <= checks.len(),
            lead <= 2,
            warnings@.len() == lead + checks.take(i as int).filter(pred).len(),
            !report.ready_for_ssh ==> warnings@[0].code@ == "ssh_unavailable"@ && warnings@[0].message@
                == "A healthy OpenSSH client was not found; SSH workflows will not work"@,
            lead == (if report.ready_for_ssh {
                0int
            } else {
                1int
            }) + (if report.transfer_strategy_available {
                0int
            } else {
                1int
            }),
            !report.transfer_strategy_available ==> warnings@[lead - 1].code@
                == "transfer_strategy_unavailable"@ && warnings@[lead - 1].message@
                == "No complete local transfer strategy was found"@,
            forall|k: int|
                0 <= k < checks.take(i as int).filter(pred).len() ==> (#[trigger] warnings@[lead
                    + k]).code@ == "tool_probe_timeout"@ && warnings@[lead + k].message@
                    == timeout_message(checks.take(i as int).filter(pred)[k].name@),
        decreases checks.len() - i,
    {
        proof {
            reveal(Seq::filter);
            assert(checks.take(i + 1).drop_last() =~= checks.take(i as int));
        }
        if report.checks[i].timed_out {
            let mut message = "The `".to_owned();
            push_str(&mut message, report.checks[i].name);
            push_str(&mut message, "` diagnostic probe timed out");
            warnings.push(MachineWarning::new("tool_probe_timeout", message.as_str()));
        }
        i = i + 1;
    }
    assert(checks.take(checks.len() as int) =~= checks);
    warnings
}

/// The human detail of one check.
pub open spec fn detail_of(c: ToolCheck) -> Seq<char> {
    if !c.available {
        c.install_hint@
    } else if c.timed_out {
        "diagnostic probe timed out"@
    } else if !c.healthy {
        match c.exit_code {
            Some(code) => "diagnostic probe exited with status "@ + signed_decimal(code as int),
            None => "diagnostic probe failed"@,
        }
    } else {
        (match c.version {
            Some(v) => v@,
            None => "available"@,
        }) + if c.output_truncated {
            " (output truncated)"@
        } else {
            Seq::empty()
        }
    }
}

pub fn check_detail(check: &ToolCheck) -> (r: String)
    ensures
        r@ == detail_of(*check),
{
    if !check.available {
        return check.install_hint.to_owned();
    }
    if check.timed_out {
        return "diagnostic probe timed out".to_owned();
    }
    if !check.healthy {
        return match check.exit_code {
            Some(code) => {
                let mut detail = "diagnostic probe exited with status ".to_owned();
                push_signed_decimal(&mut detail, code as i64);
                detail
            },
            None => "diagnostic probe failed".to_owned(),
        };
    }
    let mut detail = match &check.version {
        Some(v) => v.clone(),
        None => "available".to_owned(),
    };
    if check.output_truncated {
        push_str(&mut detail, " (output truncated)");
    } else {
        assert(detail@ + Seq::<char>::empty() =~= detail@);
    }
    detail
}

} // verus!
