//! How one invocation talks to its operator: machine or human output, whether it may ask
//! questions, colors and progress. Reading the terminal stays with the caller.
use crate::cli::{ColorChoice, OutputFormat};
use crate::error::{hinted_error, AppError, ErrorCode};
use crate::text::{ascii_lower_seq, eq_ignore_ascii_case, trim, trimmed};
use vstd::prelude::*;

verus! {

/// The output and interaction settings of one invocation.
#[derive(Debug, Clone, Copy, PartialEq, Eq, Structural)]
pub struct Context {
    pub output: OutputFormat,
    pub interactive: bool,
    pub quiet: bool,
    pub color: ColorChoice,
}

impl Context {
    /// Questions may be asked only in human mode, on a terminal, without `--no-input`.
    pub fn new(
        output: OutputFormat,
        no_input: bool,
        stdin_is_terminal: bool,
        quiet: bool,
        color: ColorChoice,
    ) -> (r: Context)
        ensures
            r.output == output,
            r.interactive == (!no_input && output == OutputFormat::Human && stdin_is_terminal),
            r.quiet == quiet,
            r.color == color,
    {
        Context {
            output,
            interactive: !no_input && !output.is_machine() && stdin_is_terminal,
            quiet,
            color,
        }
    }

    /// Colors on a stream: forced on or off, or on a terminal without `NO_COLOR`; never in
    /// machine mode.
    pub fn colors_enabled(&self, stream_is_terminal: bool, no_color: bool) -> (r: bool)
        ensures
            r == (self.output == OutputFormat::Human && match self.color {
                ColorChoice::Always => true,
                ColorChoice::Never => false,
                ColorChoice::Auto => stream_is_terminal && !no_color,
            }),
    {
        let wanted = match self.color {
            ColorChoice::Always => true,
            ColorChoice::Never => false,
            ColorChoice::Auto => stream_is_terminal && !no_color,
        };
        wanted && !self.output.is_machine()
    }

    /// A progress spinner is drawn only for people, when not quiet, on a terminal.
    pub fn spinner_visible(&self, stderr_is_terminal: bool) -> (r: bool)
        ensures
            r == (self.output == OutputFormat::Human && !self.quiet && stderr_is_terminal),
    {
        !self.output.is_machine() && !self.quiet && stderr_is_terminal
    }

    /// A question can be asked only interactively; otherwise the refusal explains both safe
    /// ways forward.
    pub fn require_interactive(&self) -> (r: Result<(), AppError>)
        ensures
            self.interactive ==> r is Ok,
            !self.interactive ==> (r matches Err(e) && non_interactive(e@)),
    {
        if !self.interactive {
            return Err(
                AppError::new(
                    ErrorCode::PolicyDenied,
                    "HostBraid cannot ask for confirmation because input is non-interactive",
                ).with_hint("Rerun in a terminal, or add `--yes` after reviewing the action."),
            );
        }
        Ok(())
    }

    /// A completion script is written to stdout as it is; machine output cannot carry it.
    pub fn require_script_output(&self) -> (r: Result<(), AppError>)
        ensures
            self.output == OutputFormat::Human ==> r is Ok,
            self.output == OutputFormat::Json ==> (r matches Err(e) && hinted_error(
                e@,
                ErrorCode::InvalidInput,
                "shell completion output is a script, not JSON"@,
                "Run `hb completion <shell>` without `--output json`."@,
            )),
    {
        if self.output.is_machine() {
            return Err(
                AppError::new(
                    ErrorCode::InvalidInput,
                    "shell completion output is a script, not JSON",
                ).with_hint("Run `hb completion <shell>` without `--output json`."),
            );
        }
        Ok(())
    }
}

/// The refusal to ask a question without an interactive terminal.
pub open spec fn non_interactive(e: crate::error::AppErrorView) -> bool {
    hinted_error(
        e,
        ErrorCode::PolicyDenied,
        "HostBraid cannot ask for confirmation because input is non-interactive"@,
        "Rerun in a terminal, or add `--yes` after reviewing the action."@,
    )
}

/// An answer confirms when, trimmed and in ASCII lowercase, it is `y` or `yes`.
pub open spec fn confirms(answer: Seq<char>) -> bool {
    ascii_lower_seq(trimmed(answer)) == "y"@ || ascii_lower_seq(trimmed(answer)) == "yes"@
}

pub fn confirmation_accepted(answer: &str) -> (r: bool)
    ensures
        r == confirms(answer@),
{
    let t = trim(answer);
    proof {
        reveal_strlit("y");
        reveal_strlit("yes");
        assert(ascii_lower_seq("y"@) =~= "y"@);
        assert(ascii_lower_seq("yes"@) =~= "yes"@);
    }
    eq_ignore_ascii_case(t.as_str(), "y") || eq_ignore_ascii_case(t.as_str(), "yes")
}

} // verus!
