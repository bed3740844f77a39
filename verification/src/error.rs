//! Stable error categories and curated, secret-free public errors.
use crate::text::push_str;
use vstd::prelude::*;

verus! {

/// Stable error categories for scripts and agents.
#[derive(Debug, Clone, Copy, PartialEq, Eq, Structural)]
#[non_exhaustive]
pub enum ErrorCode {
    InvalidArguments,
    InvalidInput,
    NotFound,
    AmbiguousTarget,
    Unsupported,
    Unavailable,
    AuthenticationFailed,
    ProviderUnavailable,
    DependencyMissing,
    PolicyDenied,
    RemoteExecutionFailed,
    Io,
    Internal,
}

/// The documented process exit status of each error category.
pub open spec fn exit_status(code: ErrorCode) -> u8 {
    match code {
        ErrorCode::InvalidArguments | ErrorCode::InvalidInput | ErrorCode::AmbiguousTarget => 2,
        ErrorCode::DependencyMissing => 3,
        ErrorCode::AuthenticationFailed => 4,
        ErrorCode::ProviderUnavailable | ErrorCode::Unavailable => 5,
        ErrorCode::PolicyDenied => 6,
        _ => 1,
    }
}

/// The stable snake_case name of each error category.
pub open spec fn code_name(code: ErrorCode) -> Seq<char> {
    match code {
        ErrorCode::InvalidArguments => "invalid_arguments"@,
        ErrorCode::InvalidInput => "invalid_input"@,
        ErrorCode::NotFound => "not_found"@,
        ErrorCode::AmbiguousTarget => "ambiguous_target"@,
        ErrorCode::Unsupported => "unsupported"@,
        ErrorCode::Unavailable => "unavailable"@,
        ErrorCode::AuthenticationFailed => "authentication_failed"@,
        ErrorCode::ProviderUnavailable => "provider_unavailable"@,
        ErrorCode::DependencyMissing => "dependency_missing"@,
        ErrorCode::PolicyDenied => "policy_denied"@,
        ErrorCode::RemoteExecutionFailed => "remote_execution_failed"@,
        ErrorCode::Io => "io"@,
        ErrorCode::Internal => "internal"@,
    }
}

impl ErrorCode {
    /// Stable process exit status associated with the error category.
    pub fn exit_code(self) -> (r: u8)
        ensures
            r == exit_status(self),
    {
        match self {
            ErrorCode::InvalidArguments | ErrorCode::InvalidInput | ErrorCode::AmbiguousTarget => 2,
            ErrorCode::DependencyMissing => 3,
            ErrorCode::AuthenticationFailed => 4,
            ErrorCode::ProviderUnavailable | ErrorCode::Unavailable => 5,
            ErrorCode::PolicyDenied => 6,
            _ => 1,
        }
    }

    /// The stable snake_case name used in machine output and human diagnostics.
    pub fn as_str(self) -> (r: &'static str)
        ensures
            r@ == code_name(self),
    {
        match self {
            ErrorCode::InvalidArguments => "invalid_arguments",
            ErrorCode::InvalidInput => "invalid_input",
            ErrorCode::NotFound => "not_found",
            ErrorCode::AmbiguousTarget => "ambiguous_target",
            ErrorCode::Unsupported => "unsupported",
            ErrorCode::Unavailable => "unavailable",
            ErrorCode::AuthenticationFailed => "authentication_failed",
            ErrorCode::ProviderUnavailable => "provider_unavailable",
            ErrorCode::DependencyMissing => "dependency_missing",
            ErrorCode::PolicyDenied => "policy_denied",
            ErrorCode::RemoteExecutionFailed => "remote_execution_failed",
            ErrorCode::Io => "io",
            ErrorCode::Internal => "internal",
        }
    }

    /// Same as [`ErrorCode::as_str`], as an owned string.
    pub fn to_string(self) -> (r: String)
        ensures
            r@ == code_name(self),
    {
        self.as_str().to_owned()
    }
}

/// The abstract content of an [`AppError`].
pub struct AppErrorView {
    pub code: ErrorCode,
    pub message: Seq<char>,
    pub hint: Option<Seq<char>>,
}

/// A curated public error suitable for both people and machine output.
///
/// There is no raw source field: callers map private failures to secret-free text first.
#[derive(Debug, PartialEq, Eq)]
pub struct AppError {
    code: ErrorCode,
    message: String,
    hint: Option<String>,
}

impl View for AppError {
    type V = AppErrorView;

    closed spec fn view(&self) -> AppErrorView {
        AppErrorView {
            code: self.code,
            message: self.message@,
            hint: match self.hint {
                Some(h) => Some(h@),
                None => None,
            },
        }
    }
}

/// An error with exactly this code and message and no hint.
pub open spec fn plain_error(e: AppErrorView, code: ErrorCode, message: Seq<char>) -> bool {
    e.code == code && e.message == message && e.hint is None
}

/// An error with exactly this code, message and hint.
pub open spec fn hinted_error(
    e: AppErrorView,
    code: ErrorCode,
    message: Seq<char>,
    hint: Seq<char>,
) -> bool {
    e.code == code && e.message == message && e.hint == Some(hint)
}

impl Clone for AppError {
    fn clone(&self) -> (r: Self)
        ensures
            r@ == self@,
    {
        AppError { code: self.code, message: self.message.clone(), hint: self.hint.clone() }
    }
}

impl AppError {
    /// Construct a public error from curated, secret-free text.
    pub fn new(code: ErrorCode, message: &str) -> (r: AppError)
        ensures
            plain_error(r@, code, message@),
    {
        AppError { code, message: message.to_owned(), hint: None }
    }

    /// Add a curated, secret-free recovery hint, replacing any earlier hint.
    pub fn with_hint(self, hint: &str) -> (r: AppError)
        ensures
            r@.code == self@.code,
            r@.message == self@.message,
            r@.hint == Some(hint@),
    {
        AppError { code: self.code, message: self.message, hint: Some(hint.to_owned()) }
    }

    pub fn code(&self) -> (r: ErrorCode)
        ensures
            r == self@.code,
    {
        self.code
    }

    pub fn message(&self) -> (r: &str)
        ensures
            r@ == self@.message,
    {
        self.message.as_str()
    }

    pub fn hint(&self) -> (r: Option<&str>)
        ensures
            match r {
                Some(h) => self@.hint == Some(h@),
                None => self@.hint is None,
            },
    {
        match &self.hint {
            Some(h) => Some(h.as_str()),
            None => None,
        }
    }

    /// An I/O error with the name of its kind, such as `NotFound`: the curated context followed
    /// by the kind in parentheses.
    pub fn io_kind(context: &str, kind: &str) -> (r: AppError)
        ensures
            r@ == io_error_view(context@, kind@),
    {
        let mut message = context.to_owned();
        push_str(&mut message, " (");
        push_str(&mut message, kind);
        push_str(&mut message, ")");
        AppError { code: ErrorCode::Io, message, hint: None }
    }

    /// An I/O error: the curated context followed by the `Debug` name of the error's kind.
    pub fn io(context: &str, error: &std::io::Error) -> (r: AppError)
        ensures
            exists|kind: Seq<char>| r@ == io_error_view(context@, kind),
    {
        let kind = io_error_kind_name(io_error_kind(error));
        AppError::io_kind(context, kind.as_str())
    }
}

/// The I/O error for `context` and an I/O error kind's name.
pub open spec fn io_error_view(context: Seq<char>, kind: Seq<char>) -> AppErrorView {
    AppErrorView { code: ErrorCode::Io, message: context + " ("@ + kind + ")"@, hint: None }
}

#[verifier::external_type_specification]
#[verifier::external_body]
pub struct ExIoError(std::io::Error);

#[verifier::external_type_specification]
#[verifier::external_body]
pub struct ExIoErrorKind(std::io::ErrorKind);

/// `std::io::Error::kind`.
#[verifier::external_body]
pub(crate) fn io_error_kind(error: &std::io::Error) -> std::io::ErrorKind {
    error.kind()
}

/// The `Debug` rendering of an I/O error kind. `ErrorKind` derives `Debug`, so this is the
/// variant's name, such as `NotFound`; nothing more is stated of it here.
#[verifier::external_body]
pub(crate) fn io_error_kind_name(kind: std::io::ErrorKind) -> String {
    format!("{kind:?}")
}

} // verus!
