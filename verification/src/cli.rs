//! The command-line surface: arguments as plain values, stable machine command names, duration
//! parsing, and the argument scanners that decide whether machine output was requested when the
//! full parse fails.
use crate::error::{plain_error, AppError, ErrorCode};
use crate::text::{chars_of, push_char, starts_with, str_eq};
use vstd::prelude::*;

verus! {

broadcast use vstd::string::group_string_axioms;

/// Human-friendly terminal output or the stable JSON envelope.
#[derive(Debug, Clone, Copy, PartialEq, Eq, Structural)]
pub enum OutputFormat {
    Human,
    Json,
}

impl OutputFormat {
    pub fn is_machine(self) -> (r: bool)
        ensures
            r == (self == OutputFormat::Json),
    {
        match self {
            OutputFormat::Json => true,
            OutputFormat::Human => false,
        }
    }
}

/// Terminal color policy.
#[derive(Debug, Clone, Copy, PartialEq, Eq, Structural)]
pub enum ColorChoice {
    Auto,
    Always,
    Never,
}

/// Compiled-in provider adapters.
#[derive(Debug, Clone, Copy, PartialEq, Eq, Structural)]
pub enum ProviderChoice {
    Kinsta,
}

impl ProviderChoice {
    pub fn as_str(self) -> (r: &'static str)
        ensures
            r@ == "kinsta"@,
    {
        match self {
            ProviderChoice::Kinsta => "kinsta",
        }
    }
}

/// Neutral environment kinds accepted by selectors.
#[derive(Debug, Clone, Copy, PartialEq, Eq, Structural)]
pub enum EnvironmentKindArg {
    Production,
    Staging,
    Development,
    Other,
}

/// The word that names a kind after `--kind` on the command line.
pub open spec fn kind_arg_name(k: EnvironmentKindArg) -> Seq<char> {
    match k {
        EnvironmentKindArg::Production => "production"@,
        EnvironmentKindArg::Staging => "staging"@,
        EnvironmentKindArg::Development => "development"@,
        EnvironmentKindArg::Other => "other"@,
    }
}

/// Built-in guide topics.
#[derive(Debug, Clone, Copy, PartialEq, Eq, Structural)]
pub enum GuideTopic {
    GettingStarted,
    Humans,
    Agents,
    Concepts,
    Security,
}

/// Shells that completion scripts can be generated for.
#[derive(Debug, Clone, Copy, PartialEq, Eq, Structural)]
pub enum ShellChoice {
    Bash,
    Elvish,
    Fish,
    PowerShell,
    Zsh,
}

#[derive(Debug)]
pub struct ProfileSelectionArgs {
    pub profile: Option<String>,
}

#[derive(Debug)]
pub struct ProfileAddArgs {
    pub provider: ProviderChoice,
    pub name: String,
    pub token_stdin: bool,
    pub credential_env: Option<String>,
    pub default: bool,
}

#[derive(Debug)]
pub struct ProfileRefArgs {
    pub profile: String,
}

#[derive(Debug)]
pub struct ProfileRemoveArgs {
    pub profile: String,
    pub yes: bool,
}

#[derive(Debug)]
pub struct ProfileCredentialSetArgs {
    pub profile: String,
    pub token_stdin: bool,
    pub credential_env: Option<String>,
}

#[derive(Debug)]
pub struct EnvironmentListArgs {
    pub selection: ProfileSelectionArgs,
    pub site_id: String,
}

#[derive(Debug)]
pub struct EnvironmentShowArgs {
    pub selection: ProfileSelectionArgs,
    pub environment_id: String,
}

#[derive(Debug)]
pub struct SshOpenArgs {
    pub selection: ProfileSelectionArgs,
    pub environment_id: String,
    pub no_pool: bool,
}

/// A positive duration as whole seconds and sub-second nanoseconds.
#[derive(Debug, Clone, Copy, PartialEq, Eq, Structural)]
pub struct DurationValue {
    pub secs: u64,
    pub nanos: u32,
}

#[derive(Debug)]
pub struct SshRunArgs {
    pub selection: ProfileSelectionArgs,
    pub environment_ids: Vec<String>,
    pub site_ids: Vec<String>,
    pub kind: Vec<EnvironmentKindArg>,
    pub label: Vec<String>,
    pub all: bool,
    pub jobs: u16,
    pub timeout: Option<DurationValue>,
    pub fail_fast: bool,
    pub yes: bool,
    pub no_pool: bool,
    pub remote_command: Vec<Vec<u8>>,
}

#[derive(Debug)]
pub struct InventoryListArgs {
    pub selection: ProfileSelectionArgs,
    pub search: Option<String>,
    pub updates: bool,
    pub vulnerable: bool,
    pub details: bool,
}

#[derive(Debug)]
pub struct GuideArgs {
    pub topic: Option<GuideTopic>,
    pub list: bool,
}

#[derive(Debug)]
pub struct SearchArgs {
    pub query: String,
    pub limit: u16,
}

#[derive(Debug)]
pub struct CompletionArgs {
    pub shell: ShellChoice,
}

#[derive(Debug)]
pub enum ProfileCredentialCommand {
    SetCredential(ProfileCredentialSetArgs),
}

#[derive(Debug)]
pub enum ProfileCommand {
    Add(ProfileAddArgs),
    List,
    Show(ProfileRefArgs),
    Default(ProfileRefArgs),
    Remove(ProfileRemoveArgs),
    Credential(ProfileCredentialCommand),
}

#[derive(Debug)]
pub enum SiteCommand {
    List(ProfileSelectionArgs),
}

#[derive(Debug)]
pub enum EnvironmentCommand {
    List(EnvironmentListArgs),
    Show(EnvironmentShowArgs),
}

#[derive(Debug)]
pub enum SshCommand {
    Open(SshOpenArgs),
    Run(SshRunArgs),
}

#[derive(Debug)]
pub enum InventoryCommand {
    Plugins(InventoryListArgs),
    Themes(InventoryListArgs),
}

#[derive(Debug)]
pub enum Commands {
    Profile(ProfileCommand),
    Site(SiteCommand),
    Environment(EnvironmentCommand),
    Ssh(SshCommand),
    Inventory(InventoryCommand),
    Guide(GuideArgs),
    Search(SearchArgs),
    Doctor,
    Completion(CompletionArgs),
}

impl ProfileCredentialCommand {
    pub fn machine_name(&self) -> (r: &'static str)
        ensures
            r@ == "profile.credential.set"@,
    {
        match self {
            ProfileCredentialCommand::SetCredential(_) => "profile.credential.set",
        }
    }
}

impl ProfileCommand {
    pub open spec fn name(&self) -> Seq<char> {
        match self {
            ProfileCommand::Add(_) => "profile.add"@,
            ProfileCommand::List => "profile.list"@,
            ProfileCommand::Show(_) => "profile.show"@,
            ProfileCommand::Default(_) => "profile.default"@,
            ProfileCommand::Remove(_) => "profile.remove"@,
            ProfileCommand::Credential(_) => "profile.credential.set"@,
        }
    }

    pub fn machine_name(&self) -> (r: &'static str)
        ensures
            r@ == self.name(),
    {
        match self {
            ProfileCommand::Add(_) => "profile.add",
            ProfileCommand::List => "profile.list",
            ProfileCommand::Show(_) => "profile.show",
            ProfileCommand::Default(_) => "profile.default",
            ProfileCommand::Remove(_) => "profile.remove",
            ProfileCommand::Credential(arguments) => arguments.machine_name(),
        }
    }
}

impl SiteCommand {
    pub fn machine_name(&self) -> (r: &'static str)
        ensures
            r@ == "site.list"@,
    {
        match self {
            SiteCommand::List(_) => "site.list",
        }
    }
}

impl EnvironmentCommand {
    pub open spec fn name(&self) -> Seq<char> {
        match self {
            EnvironmentCommand::List(_) => "environment.list"@,
            EnvironmentCommand::Show(_) => "environment.show"@,
        }
    }

    pub fn machine_name(&self) -> (r: &'static str)
        ensures
            r@ == self.name(),
    {
        match self {
            EnvironmentCommand::List(_) => "environment.list",
            EnvironmentCommand::Show(_) => "environment.show",
        }
    }
}

impl SshCommand {
    pub open spec fn name(&self) -> Seq<char> {
        match self {
            SshCommand::Open(_) => "ssh.open"@,
            SshCommand::Run(_) => "ssh.run"@,
        }
    }

    pub fn machine_name(&self) -> (r: &'static str)
        ensures
            r@ == self.name(),
    {
        match self {
            SshCommand::Open(_) => "ssh.open",
            SshCommand::Run(_) => "ssh.run",
        }
    }
}

impl InventoryCommand {
    pub open spec fn name(&self) -> Seq<char> {
        match self {
            InventoryCommand::Plugins(_) => "inventory.plugins"@,
            InventoryCommand::Themes(_) => "inventory.themes"@,
        }
    }

    pub fn machine_name(&self) -> (r: &'static str)
        ensures
            r@ == self.name(),
    {
        match self {
            InventoryCommand::Plugins(_) => "inventory.plugins",
            InventoryCommand::Themes(_) => "inventory.themes",
        }
    }
}

impl Commands {
    /// The stable command name used in machine envelopes.
    pub open spec fn name(&self) -> Seq<char> {
        match self {
            Commands::Profile(c) => c.name(),
            Commands::Site(_) => "site.list"@,
            Commands::Environment(c) => c.name(),
            Commands::Ssh(c) => c.name(),
            Commands::Inventory(c) => c.name(),
            Commands::Guide(a) => if a.list {
                "guide.list"@
            } else {
                "guide.show"@
            },
            Commands::Search(_) => "search"@,
            Commands::Doctor => "doctor"@,
            Commands::Completion(_) => "completion"@,
        }
    }

    pub fn machine_name(&self) -> (r: &'static str)
        ensures
            r@ == self.name(),
    {
        match self {
            Commands::Profile(c) => c.machine_name(),
            Commands::Site(c) => c.machine_name(),
            Commands::Environment(c) => c.machine_name(),
            Commands::Ssh(c) => c.machine_name(),
            Commands::Inventory(c) => c.machine_name(),
            Commands::Guide(a) => if a.list {
                "guide.list"
            } else {
                "guide.show"
            },
            Commands::Search(_) => "search",
            Commands::Doctor => "doctor",
            Commands::Completion(_) => "completion",
        }
    }
}

// ---------------------------------------------------------------------------------------------
// Durations
// ---------------------------------------------------------------------------------------------
/// What `humantime::parse_duration` returns for the given text, as seconds and nanoseconds.
pub uninterp spec fn humantime_duration(text: Seq<char>) -> Option<(u64, u32)>;

/// How many ASCII decimal digits `s` holds.
pub open spec fn digit_count(s: Seq<char>) -> nat
    decreases s.len(),
{
    if s.len() == 0 {
        0
    } else {
        digit_count(s.drop_last()) + if '0' <= s.last() && s.last() <= '9' {
            1nat
        } else {
            0nat
        }
    }
}

/// The number spelled by all decimal digits of `s` read in order, other characters skipped.
pub open spec fn digits_value(s: Seq<char>) -> nat
    decreases s.len(),
{
    if s.len() == 0 {
        0
    } else if '0' <= s.last() && s.last() <= '9' {
        digits_value(s.drop_last()) * 10 + (s.last() as nat - '0' as nat) as nat
    } else {
        digits_value(s.drop_last())
    }
}

/// The bound on `digits_value + digit_count` under which a duration text is parsed.
///
/// Every number the parser reads is spelled by a run of consecutive digits of the text, so
/// the numbers together are at most `digits_value`, and there are at most `digit_count` of
/// them. Each unit is at most a year (31 557 600 s) and each fraction adds less than one unit,
/// so the accumulated seconds stay below `(digits_value + digit_count) * 31 557 600`, which
/// under this bound is below `u64::MAX`: the parser's `Duration::new` cannot overflow.
pub const DURATION_DIGITS_BOUND: u64 = 500_000_000_000;

/// Whether a duration text is within the bound that keeps the parser from overflowing.
pub open spec fn duration_text_bounded(s: Seq<char>) -> bool {
    digits_value(s) + digit_count(s) <= DURATION_DIGITS_BOUND
}

proof fn lemma_digits_prefix(s: Seq<char>, i: int)
    requires
        0 <= i <= s.len(),
    ensures
        digit_count(s.take(i)) <= digit_count(s),
        digits_value(s.take(i)) <= digits_value(s),
    decreases s.len() - i,
{
    if i < s.len() {
        lemma_digits_prefix(s, i + 1);
        assert(s.take(i + 1).drop_last() =~= s.take(i));
    } else {
        assert(s.take(i) =~= s);
    }
}

/// Whether `value` is within `DURATION_DIGITS_BOUND`.
pub fn duration_within_bound(value: &str) -> (r: bool)
    ensures
        r == duration_text_bounded(value@),
{
    let mut number: u64 = 0;
    let mut count: u64 = 0;
    for c in it: value.chars()
        invariant
            it.seq() == value@,
            number == digits_value(value@.take(it.index() as int)),
            count == digit_count(value@.take(it.index() as int)),
            number + count <= DURATION_DIGITS_BOUND,
    {
        let ghost i = it.index() as int;
        proof {
            assert(value@.take(i + 1).drop_last() =~= value@.take(i));
            assert(value@.take(i + 1).last() == c);
        }
        if '0' <= c && c <= '9' {
            let digit = (c as u32 - '0' as u32) as u64;
            let next = number * 10 + digit;
            if next + count + 1 > DURATION_DIGITS_BOUND {
                proof {
                    lemma_digits_prefix(value@, i + 1);
                }
                return false;
            }
            number = next;
            count = count + 1;
        }
    }
    proof {
        assert(value@.take(value@.len() as int) =~= value@);
    }
    true
}

/// `humantime::parse_duration`, as whole seconds and sub-second nanoseconds. The parser adds
/// each component with `Duration::new`, which panics when the seconds overflow; a text within
/// `DURATION_DIGITS_BOUND` cannot reach that sum.
#[verifier::external_body]
fn humantime_parse(value: &str) -> (r: Option<(u64, u32)>)
    requires
        duration_text_bounded(value@),
    ensures
        r == humantime_duration(value@),
        r matches Some((_, nanos)) ==> nanos < 1_000_000_000,
{
    match humantime::parse_duration(value) {
        Ok(duration) => Some((duration.as_secs(), duration.subsec_nanos())),
        Err(_) => None,
    }
}

pub open spec fn duration_error(parsed: Option<(u64, u32)>) -> Option<Seq<char>> {
    match parsed {
        None => Some("duration must be a positive value such as `30s`, `5m`, or `1h`"@),
        Some((secs, nanos)) => if secs == 0 && nanos == 0 {
            Some("duration must be greater than zero"@)
        } else {
            None
        },
    }
}

/// Accept a parsed duration only when it is positive.
pub fn positive_duration(parsed: Option<(u64, u32)>) -> (r: Result<DurationValue, String>)
    ensures
        match duration_error(parsed) {
            Some(message) => r matches Err(m) && m@ == message,
            None => r matches Ok(d) && parsed == Some((d.secs, d.nanos)),
        },
{
    match parsed {
        None => Err("duration must be a positive value such as `30s`, `5m`, or `1h`".to_owned()),
        Some((secs, nanos)) => if secs == 0 && nanos == 0 {
            Err("duration must be greater than zero".to_owned())
        } else {
            Ok(DurationValue { secs, nanos })
        },
    }
}

/// Parse a timeout such as `30s` or `5m`; zero is rejected, and so is a text whose digits
/// spell more than `DURATION_DIGITS_BOUND`, which the parser could not add up safely.
pub fn parse_duration(value: &str) -> (r: Result<DurationValue, String>)
    ensures
        !duration_text_bounded(value@) ==> (r matches Err(m) && m@
            == "duration must be a positive value such as `30s`, `5m`, or `1h`"@),
        duration_text_bounded(value@) ==> match duration_error(humantime_duration(value@)) {
            Some(message) => r matches Err(m) && m@ == message,
            None => r matches Ok(d) && humantime_duration(value@) == Some((d.secs, d.nanos)),
        },
{
    if !duration_within_bound(value) {
        return Err("duration must be a positive value such as `30s`, `5m`, or `1h`".to_owned());
    }
    positive_duration(humantime_parse(value))
}

/// A duration in nanoseconds.
pub fn duration_nanos(d: DurationValue) -> (r: u128)
    ensures
        r == d.secs * 1_000_000_000 + d.nanos,
{
    assert(d.secs * 1_000_000_000 <= u64::MAX * 1_000_000_000) by (nonlinear_arith);
    (d.secs as u128) * 1_000_000_000 + (d.nanos as u128)
}

// ---------------------------------------------------------------------------------------------
// Output-mode scanning
// ---------------------------------------------------------------------------------------------
/// `json` requests machine output, `human` requests human output.
pub open spec fn requested(value: Seq<char>) -> Option<bool> {
    if value == "json"@ {
        Some(true)
    } else if value == "human"@ {
        Some(false)
    } else {
        None
    }
}

pub fn requested_output(value: &str) -> (r: Option<bool>)
    ensures
        r == requested(value@),
{
    if str_eq(value, "json") {
        Some(true)
    } else if str_eq(value, "human") {
        Some(false)
    } else {
        None
    }
}

/// What a cluster of short options says about output, whether it takes the next argument, and
/// whether every option in it is known.
#[derive(Debug, Clone, Copy, PartialEq, Eq, Structural)]
pub struct ShortOptionScan {
    pub output: Option<bool>,
    pub consumes_next: bool,
    pub known: bool,
}

pub open spec fn strip_equals(value: Seq<char>) -> Seq<char> {
    if value.len() > 0 && value[0] == '=' {
        value.drop_first()
    } else {
        value
    }
}

pub open spec fn and_then_requested(value: Option<Seq<char>>) -> Option<bool> {
    match value {
        Some(v) => requested(v),
        None => None,
    }
}

/// Scan the options of `cluster` from position `k`: `q`, `h` and `V` take no value, `o` takes the
/// rest of the cluster (after an optional `=`) or else the next argument.
pub open spec fn cluster_scan(cluster: Seq<char>, k: int, next: Option<Seq<char>>) -> ShortOptionScan
    decreases cluster.len() - k,
{
    if k < 0 || k >= cluster.len() {
        ShortOptionScan { output: None, consumes_next: false, known: true }
    } else {
        let c = cluster[k];
        if c == 'q' || c == 'h' || c == 'V' {
            cluster_scan(cluster, k + 1, next)
        } else if c == 'o' {
            let value = cluster.skip(k + 1);
            let consumes_next = value.len() == 0;
            let given = if consumes_next {
                next
            } else {
                Some(strip_equals(value))
            };
            ShortOptionScan { output: and_then_requested(given), consumes_next, known: true }
        } else {
            ShortOptionScan { output: None, consumes_next: false, known: false }
        }
    }
}

/// The scan of one `-xyz` argument.
pub open spec fn short_scan(argument: Seq<char>, next: Option<Seq<char>>) -> ShortOptionScan {
    if argument.len() >= 2 && argument[0] == '-' {
        cluster_scan(argument.drop_first(), 0, next)
    } else {
        ShortOptionScan { output: None, consumes_next: false, known: false }
    }
}

fn text_from(chars: &Vec<char>, start: usize) -> (r: String)
    requires
        start <= chars@.len(),
    ensures
        r@ == chars@.skip(start as int),
{
    let mut out = String::new();
    let mut i = start;
    while i < chars.len()
        invariant
            start <= i <= chars@.len(),
            out@ == chars@.subrange(start as int, i as int),
        decreases chars@.len() - i,
    {
        push_char(&mut out, chars[i]);
        assert(chars@.subrange(start as int, i + 1) =~= chars@.subrange(start as int, i as int).push(
            chars@[i as int],
        ));
        i = i + 1;
    }
    assert(chars@.subrange(start as int, chars@.len() as int) =~= chars@.skip(start as int));
    out
}

/// Scan a cluster of short options such as `-qo json`.
pub fn scan_short_options(argument: &str, next: Option<&str>) -> (r: ShortOptionScan)
    ensures
        r == short_scan(
            argument@,
            match next {
                Some(n) => Some(n@),
                None => None,
            },
        ),
{
    let ghost next_view = match next {
        Some(n) => Some(n@),
        None => None::<Seq<char>>,
    };
    let chars = chars_of(argument);
    if chars.len() < 2 || chars[0] != '-' {
        return ShortOptionScan { output: None, consumes_next: false, known: false };
    }
    let ghost cluster = argument@.drop_first();
    let mut k: usize = 1;
    while k < chars.len()
        invariant
            chars@ == argument@,
            cluster == argument@.drop_first(),
            next_view == match next {
                Some(n) => Some(n@),
                None => None::<Seq<char>>,
            },
            1 <= k <= chars@.len(),
            short_scan(argument@, next_view) == cluster_scan(cluster, k - 1, next_view),
        decreases chars@.len() - k,
    {
        let c = chars[k];
        assert(cluster[k - 1] == c);
        if c == 'q' || c == 'h' || c == 'V' {
            k = k + 1;
        } else if c == 'o' {
            let value = text_from(&chars, k + 1);
            assert(value@ =~= cluster.skip(k as int));
            if k + 1 == chars.len() {
                assert(value@.len() == 0);
                let output = match next {
                    Some(n) => requested_output(n),
                    None => None,
                };
                return ShortOptionScan { output, consumes_next: true, known: true };
            }
            proof {
                assert(value@.len() > 0);
            }
            let value_chars = chars_of(value.as_str());
            let stripped = if value_chars.len() > 0 && value_chars[0] == '=' {
                text_from(&value_chars, 1)
            } else {
                value
            };
            assert(stripped@ =~= strip_equals(cluster.skip(k as int)));
            return ShortOptionScan {
                output: requested_output(stripped.as_str()),
                consumes_next: false,
                known: true,
            };
        } else {
            return ShortOptionScan { output: None, consumes_next: false, known: false };
        }
    }
    ShortOptionScan { output: None, consumes_next: false, known: true }
}

/// The argument at `i` as text, if it exists and is valid UTF-8.
pub open spec fn arg_at(args: Seq<Option<String>>, i: int) -> Option<Seq<char>> {
    if 0 <= i < args.len() {
        match args[i] {
            Some(s) => Some(s@),
            None => None,
        }
    } else {
        None
    }
}

pub open spec fn has_prefix(a: Seq<char>, p: Seq<char>) -> bool {
    p.len() <= a.len() && a.take(p.len() as int) == p
}

/// A cluster of short options such as `-qo`.
pub open spec fn is_short_cluster(a: Seq<char>) -> bool {
    has_prefix(a, "-"@) && !has_prefix(a, "--"@)
}

/// Global options that take no value.
pub open spec fn is_global_flag(a: Seq<char>) -> bool {
    a == "--no-input"@ || a == "--quiet"@ || a == "--help"@ || a == "--version"@
}

/// `ssh run` options that take a separate value.
pub open spec fn is_run_valued_option(a: Seq<char>) -> bool {
    a == "--profile"@ || a == "--environment-id"@ || a == "--site-id"@ || a == "--kind"@ || a
        == "--label"@ || a == "--jobs"@ || a == "--timeout"@
}

/// `ssh run` options written with an attached value, and its flags.
pub open spec fn is_run_inline_option(a: Seq<char>) -> bool {
    has_prefix(a, "--profile="@) || has_prefix(a, "--environment-id="@) || has_prefix(
        a,
        "--site-id="@,
    ) || has_prefix(a, "--kind="@) || has_prefix(a, "--label="@) || has_prefix(a, "--jobs="@)
        || has_prefix(a, "--timeout="@) || a == "--all"@ || a == "--fail-fast"@ || a == "--yes"@
        || a == "--no-pool"@
}

/// After `ssh`: the index where the remote command of `ssh run` starts, if this is `ssh run`.
/// `run` records that the `run` word was seen.
pub open spec fn boundary_from(args: Seq<Option<String>>, index: int, run: bool) -> Option<int>
    decreases args.len() + 1 - index,
{
    if index < 0 || index >= args.len() {
        None
    } else if arg_at(args, index) is None {
        if run {
            Some(index)
        } else {
            None
        }
    } else {
        let a = arg_at(args, index)->0;
        let scan = short_scan(a, arg_at(args, index + 1));
        let step: int = if scan.consumes_next {
            2
        } else {
            1
        };
        if a == "--"@ {
            if run {
                Some(index)
            } else {
                None
            }
        } else if a == "--output"@ || a == "--color"@ {
            boundary_from(args, index + 2, run)
        } else if has_prefix(a, "--output="@) || has_prefix(a, "--color="@) {
            boundary_from(args, index + 1, run)
        } else if is_global_flag(a) {
            boundary_from(args, index + 1, run)
        } else if is_short_cluster(a) && scan.known {
            boundary_from(args, index + step, run)
        } else if is_short_cluster(a) && run {
            Some(index)
        } else if is_short_cluster(a) {
            boundary_from(args, index + 1, run)
        } else if run && is_run_valued_option(a) {
            boundary_from(args, index + 2, run)
        } else if run && is_run_inline_option(a) {
            boundary_from(args, index + 1, run)
        } else if run {
            Some(index)
        } else if has_prefix(a, "-"@) {
            boundary_from(args, index + 1, run)
        } else if a != "run"@ {
            None
        } else {
            boundary_from(args, index + 1, true)
        }
    }
}

/// Before any subcommand: the remote-command boundary of a root `ssh run`, if there is one.
pub open spec fn root_boundary(args: Seq<Option<String>>, index: int) -> Option<int>
    decreases args.len() + 1 - index,
{
    if index < 0 || index >= args.len() {
        None
    } else if arg_at(args, index) is None {
        None
    } else {
        let a = arg_at(args, index)->0;
        let scan = short_scan(a, arg_at(args, index + 1));
        let step: int = if scan.known && scan.consumes_next {
            2
        } else {
            1
        };
        if a == "ssh"@ {
            boundary_from(args, index + 1, false)
        } else if a == "--"@ {
            None
        } else if a == "--output"@ || a == "--color"@ {
            root_boundary(args, index + 2)
        } else if has_prefix(a, "--output="@) || has_prefix(a, "--color="@) {
            root_boundary(args, index + 1)
        } else if is_global_flag(a) {
            root_boundary(args, index + 1)
        } else if is_short_cluster(a) {
            root_boundary(args, index + step)
        } else if has_prefix(a, "-"@) {
            root_boundary(args, index + 1)
        } else {
            None
        }
    }
}

fn arg_text(arguments: &[Option<String>], i: usize) -> (r: Option<&str>)
    ensures
        match r {
            Some(s) => arg_at(arguments@, i as int) == Some(s@),
            None => arg_at(arguments@, i as int) is None,
        },
{
    if i < arguments.len() {
        match &arguments[i] {
            Some(s) => Some(s.as_str()),
            None => None,
        }
    } else {
        None
    }
}

fn global_flag(a: &str) -> (r: bool)
    ensures
        r == is_global_flag(a@),
{
    str_eq(a, "--no-input") || str_eq(a, "--quiet") || str_eq(a, "--help") || str_eq(a, "--version")
}

fn short_cluster(a: &str) -> (r: bool)
    ensures
        r == is_short_cluster(a@),
{
    starts_with(a, "-") && !starts_with(a, "--")
}

fn run_valued_option(a: &str) -> (r: bool)
    ensures
        r == is_run_valued_option(a@),
{
    str_eq(a, "--profile") || str_eq(a, "--environment-id") || str_eq(a, "--site-id") || str_eq(
        a,
        "--kind",
    ) || str_eq(a, "--label") || str_eq(a, "--jobs") || str_eq(a, "--timeout")
}

fn run_inline_option(a: &str) -> (r: bool)
    ensures
        r == is_run_inline_option(a@),
{
    starts_with(a, "--profile=") || starts_with(a, "--environment-id=") || starts_with(
        a,
        "--site-id=",
    ) || starts_with(a, "--kind=") || starts_with(a, "--label=") || starts_with(a, "--jobs=")
        || starts_with(a, "--timeout=") || str_eq(a, "--all") || str_eq(a, "--fail-fast") || str_eq(
        a,
        "--yes",
    ) || str_eq(a, "--no-pool")
}

/// The index where the remote command of `ssh run` starts, scanning after `ssh` at `start`.
pub fn ssh_run_remote_boundary_from(arguments: &[Option<String>], start: usize) -> (r: Option<usize>)
    ensures
        match r {
            Some(i) => boundary_from(arguments@, start + 1, false) == Some(i as int),
            None => boundary_from(arguments@, start + 1, false) is None,
        },
{
    let mut run = false;
    if start >= arguments.len() {
        return None;
    }
    let mut index = start + 1;
    while index < arguments.len()
        invariant
            start < arguments@.len(),
            start + 1 <= index,
            boundary_from(arguments@, start + 1, false) == boundary_from(arguments@, index as int, run),
        decreases arguments@.len() - index,
    {
        let argument = match arg_text(arguments, index) {
            Some(a) => a,
            None => {
                if run {
                    return Some(index);
                }
                return None;
            },
        };
        if str_eq(argument, "--") {
            if run {
                return Some(index);
            }
            return None;
        }
        if str_eq(argument, "--output") || str_eq(argument, "--color") {
            if arguments.len() - index < 2 {
                assert(boundary_from(arguments@, index + 2, run) is None);
                return None;
            }
            index = index + 2;
            continue;
        }
        if starts_with(argument, "--output=") || starts_with(argument, "--color=") {
            index = index + 1;
            continue;
        }
        if global_flag(argument) {
            index = index + 1;
            continue;
        }
        if short_cluster(argument) {
            let scan = scan_short_options(argument, arg_text(arguments, index + 1));
            if scan.known {
                let step: usize = if scan.consumes_next {
                    2
                } else {
                    1
                };
                if arguments.len() - index < step {
                    assert(boundary_from(arguments@, index + step, run) is None);
                    return None;
                }
                index = index + step;
                continue;
            }
            if run {
                return Some(index);
            }
            index = index + 1;
            continue;
        }
        if run {
            if run_valued_option(argument) {
                if arguments.len() - index < 2 {
                    assert(boundary_from(arguments@, index + 2, run) is None);
                    return None;
                }
                index = index + 2;
                continue;
            }
            if run_inline_option(argument) {
                index = index + 1;
                continue;
            }
            return Some(index);
        }
        if starts_with(argument, "-") {
            index = index + 1;
            continue;
        }
        if !str_eq(argument, "run") {
            return None;
        }
        run = true;
        index = index + 1;
    }
    None
}

/// The index where the remote command of a root `ssh run` starts, if the arguments name one.
pub fn ssh_run_remote_boundary(arguments: &[Option<String>]) -> (r: Option<usize>)
    ensures
        match r {
            Some(i) => root_boundary(arguments@, 1) == Some(i as int),
            None => root_boundary(arguments@, 1) is None,
        },
{
    let mut index: usize = 1;
    while index < arguments.len()
        invariant
            1 <= index,
            root_boundary(arguments@, 1) == root_boundary(arguments@, index as int),
        decreases arguments@.len() - index,
    {
        let argument = match arg_text(arguments, index) {
            Some(a) => a,
            None => {
                return None;
            },
        };
        if str_eq(argument, "ssh") {
            return ssh_run_remote_boundary_from(arguments, index);
        }
        if str_eq(argument, "--") {
            return None;
        }
        if str_eq(argument, "--output") || str_eq(argument, "--color") {
            if arguments.len() - index < 2 {
                assert(root_boundary(arguments@, index + 2) is None);
                return None;
            }
            index = index + 2;
            continue;
        }
        if starts_with(argument, "--output=") || starts_with(argument, "--color=") {
            index = index + 1;
            continue;
        }
        if global_flag(argument) {
            index = index + 1;
            continue;
        }
        if short_cluster(argument) {
            let scan = scan_short_options(argument, arg_text(arguments, index + 1));
            let step: usize = if scan.known && scan.consumes_next {
                2
            } else {
                1
            };
            if arguments.len() - index < step {
                assert(root_boundary(arguments@, index + step) is None);
                return None;
            }
            index = index + step;
            continue;
        }
        if starts_with(argument, "-") {
            index = index + 1;
            continue;
        }
        return None;
    }
    None
}

pub open spec fn or_else(first: Option<bool>, second: Option<bool>) -> Option<bool> {
    if first is Some {
        first
    } else {
        second
    }
}

/// The output mode named explicitly by the arguments from `index` up to `limit`, the last one
/// winning; `explicit` is what earlier arguments named.
pub open spec fn output_scan(args: Seq<Option<String>>, index: int, limit: int, explicit: Option<
    bool,
>) -> Option<bool>
    decreases args.len() + 1 - index,
{
    if index < 0 || index >= limit || index >= args.len() {
        explicit
    } else if arg_at(args, index) is None {
        output_scan(args, index + 1, limit, explicit)
    } else {
        let a = arg_at(args, index)->0;
        let scan = short_scan(a, arg_at(args, index + 1));
        let step: int = if scan.consumes_next {
            2
        } else {
            1
        };
        if a == "--"@ {
            explicit
        } else if a == "--output"@ || a == "-o"@ {
            output_scan(args, index + 2, limit, or_else(and_then_requested(arg_at(args, index + 1)), explicit))
        } else if is_short_cluster(a) {
            output_scan(args, index + step, limit, or_else(scan.output, explicit))
        } else if has_prefix(a, "--output="@) {
            output_scan(args, index + 1, limit, or_else(requested(a.skip(9)), explicit))
        } else {
            output_scan(args, index + 1, limit, explicit)
        }
    }
}

/// Whether machine output was requested, judged from the raw arguments when they do not parse:
/// the last explicit `--output`/`-o` before any `--` or remote command wins, else the
/// environment's `HOSTBRAID_OUTPUT` value.
pub open spec fn machine_requested(args: Seq<Option<String>>, env_output: Option<Seq<char>>) -> bool {
    let limit = match root_boundary(args, 1) {
        Some(i) => i,
        None => args.len() as int,
    };
    match output_scan(args, 1, limit, None) {
        Some(machine) => machine,
        None => env_output == Some("json"@),
    }
}

/// Scan unparsable arguments for a requested output mode; `env_output` is the value of
/// `HOSTBRAID_OUTPUT`, if set.
pub fn scan_machine_output(arguments: &[Option<String>], env_output: Option<&str>) -> (r: bool)
    ensures
        r == machine_requested(
            arguments@,
            match env_output {
                Some(v) => Some(v@),
                None => None,
            },
        ),
{
    let limit = match ssh_run_remote_boundary(arguments) {
        Some(i) => i,
        None => arguments.len(),
    };
    let mut explicit: Option<bool> = None;
    let mut index: usize = 1;
    let mut stop = false;
    while index < limit && index < arguments.len() && !stop
        invariant
            limit as int == match root_boundary(arguments@, 1) {
                Some(i) => i,
                None => arguments@.len() as int,
            },
            1 <= index,
            stop ==> output_scan(arguments@, 1, limit as int, None) == explicit,
            !stop ==> output_scan(arguments@, 1, limit as int, None) == output_scan(
                arguments@,
                index as int,
                limit as int,
                explicit,
            ),
        decreases arguments@.len() - index, if stop { 0int } else { 1int },
    {
        let argument = match arg_text(arguments, index) {
            Some(a) => a,
            None => {
                index = index + 1;
                continue;
            },
        };
        if str_eq(argument, "--") {
            stop = true;
            continue;
        }
        if str_eq(argument, "--output") || str_eq(argument, "-o") {
            let given = match arg_text(arguments, index + 1) {
                Some(value) => requested_output(value),
                None => None,
            };
            if given.is_some() {
                explicit = given;
            }
            if arguments.len() - index < 2 {
                assert(output_scan(arguments@, index + 2, limit as int, explicit) == explicit);
                stop = true;
                continue;
            }
            index = index + 2;
            continue;
        }
        if short_cluster(argument) {
            let scan = scan_short_options(argument, arg_text(arguments, index + 1));
            if scan.output.is_some() {
                explicit = scan.output;
            }
            let step: usize = if scan.consumes_next {
                2
            } else {
                1
            };
            if arguments.len() - index < step {
                assert(output_scan(arguments@, index + step, limit as int, explicit) == explicit);
                stop = true;
                continue;
            }
            index = index + step;
            continue;
        }
        if starts_with(argument, "--output=") {
            let chars = chars_of(argument);
            proof {
                reveal_strlit("--output=");
            }
            let value = text_from(&chars, 9);
            let given = requested_output(value.as_str());
            if given.is_some() {
                explicit = given;
            }
        }
        index = index + 1;
    }
    match explicit {
        Some(machine) => machine,
        None => match env_output {
            Some(value) => str_eq(value, "json"),
            None => false,
        },
    }
}

// ---------------------------------------------------------------------------------------------
// Process entry decisions
// ---------------------------------------------------------------------------------------------
/// Why the full argument parse did not produce a command.
#[derive(Debug, Clone, Copy, PartialEq, Eq, Structural)]
pub enum ParseFailure {
    DisplayHelp,
    DisplayVersion,
    Invalid,
}

/// The machine command name and payload kind for help or version text.
pub fn help_output_names(failure: ParseFailure) -> (r: (&'static str, &'static str))
    ensures
        failure == ParseFailure::DisplayVersion ==> r.0@ == "cli.version"@ && r.1@ == "version"@,
        failure != ParseFailure::DisplayVersion ==> r.0@ == "cli.help"@ && r.1@ == "help"@,
{
    match failure {
        ParseFailure::DisplayVersion => ("cli.version", "version"),
        _ => ("cli.help", "help"),
    }
}

/// The machine command name of an argument parse failure.
pub fn parse_failure_command() -> (r: &'static str)
    ensures
        r@ == "cli.parse"@,
{
    "cli.parse"
}

/// The public error for arguments that do not parse. Parser diagnostics can echo arbitrary
/// arguments, so none of their text is kept.
pub fn invalid_arguments_error() -> (r: AppError)
    ensures
        r@.code == ErrorCode::InvalidArguments,
        r@.message == "command-line arguments were invalid"@,
        r@.hint == Some("Run `hostbraid --help` or `hostbraid search <term>`."@),
{
    AppError::new(ErrorCode::InvalidArguments, "command-line arguments were invalid").with_hint(
        "Run `hostbraid --help` or `hostbraid search <term>`.",
    )
}

/// A parser exit code as a process status; codes outside a byte become a generic failure.
pub fn parser_exit_status(code: i32) -> (r: u8)
    ensures
        r == if 0 <= code && code <= 255 {
            code as u8
        } else {
            1u8
        },
{
    if 0 <= code && code <= 255 {
        code as u8
    } else {
        1
    }
}

/// The machine command name of a run: the command's own, or `welcome` without one.
pub fn command_name(command: Option<&Commands>) -> (r: &'static str)
    ensures
        r@ == match command {
            Some(c) => c.name(),
            None => "welcome"@,
        },
{
    match command {
        Some(c) => c.machine_name(),
        None => "welcome",
    }
}

/// The process exit status of a finished command.
pub fn command_exit_status(result: &Result<crate::remote::CommandOutcome, AppError>) -> (r: u8)
    ensures
        r == match result {
            Ok(crate::remote::CommandOutcome::Success) => 0u8,
            Ok(crate::remote::CommandOutcome::Exit(code)) => *code,
            Err(e) => crate::error::exit_status(e@.code),
        },
{
    match result {
        Ok(crate::remote::CommandOutcome::Success) => 0,
        Ok(crate::remote::CommandOutcome::Exit(code)) => *code,
        Err(e) => e.code().exit_code(),
    }
}

/// Whether a command is served by a provider session.
pub fn is_provider_command(command: &Commands) -> (r: bool)
    ensures
        r == (command is Profile || command is Site || command is Environment || command is Ssh
            || command is Inventory),
{
    match command {
        Commands::Profile(_) | Commands::Site(_) | Commands::Environment(_) | Commands::Ssh(_)
        | Commands::Inventory(_) => true,
        _ => false,
    }
}

/// The error for a command routed to the provider dispatcher by mistake.
pub fn misrouted_command_error() -> (r: AppError)
    ensures
        plain_error(
            r@,
            ErrorCode::Internal,
            "a non-provider command reached the provider dispatcher"@,
        ),
{
    AppError::new(ErrorCode::Internal, "a non-provider command reached the provider dispatcher")
}

} // verus!
