//! API tokens and where they come from: validation of secret tokens, the choice of credential
//! source, environment and stdin token decoding, and the credential-store account name.
//! Errors never contain the token.
use crate::error::{hinted_error, AppError, AppErrorView, ErrorCode};
use crate::model::ProviderProfileRef;
use crate::profiles::{
    format_profile_ref, parse_profile_ref, reference_text, valid_environment_variable,
    validate_environment_variable, CredentialSource,
};
use crate::text::{byte_len, contains_control, has_control, push_str, string_from_utf8, utf8_len};
use vstd::prelude::*;
use vstd::utf8::{decode_utf8, valid_utf8};

verus! {

broadcast use vstd::string::group_string_axioms;

/// Largest accepted token, in bytes.
pub const MAX_TOKEN_BYTES: usize = 65536;

/// Service name under which tokens are kept in the OS credential store.
pub const KEYRING_SERVICE: &'static str = "hostbraid";

/// A token that can be stored and sent: one non-empty line of at most 64 KiB without control
/// characters.
pub open spec fn valid_token(value: Seq<char>) -> bool {
    value.len() > 0 && utf8_len(value) <= MAX_TOKEN_BYTES && !has_control(value)
}

pub open spec fn invalid_token_error() -> AppErrorView {
    AppErrorView {
        code: ErrorCode::InvalidInput,
        message: "credential token must be one non-empty line with no control characters"@,
        hint: Some(
            "Enter the token at the hidden prompt, or pipe exactly one UTF-8 token with `--token-stdin`; tokens are never accepted as command arguments."@,
        ),
    }
}

/// `Zeroize::zeroize` on a `String`: overwrite its bytes, then clear it.
#[verifier::external_body]
fn wipe_text(value: &mut String)
    ensures
        final(value)@ == Seq::<char>::empty(),
{
    zeroize::Zeroize::zeroize(value);
}

/// `Zeroize::zeroize` on a byte buffer: overwrite its bytes, then clear it.
#[verifier::external_body]
fn wipe_bytes(value: &mut Vec<u8>)
    ensures
        final(value)@ == Seq::<u8>::empty(),
{
    zeroize::Zeroize::zeroize(value);
}

/// A validated API token. It is never formatted; its text leaves only through `expose_secret`.
pub struct SecretToken {
    value: String,
}

impl View for SecretToken {
    type V = Seq<char>;

    closed spec fn view(&self) -> Seq<char> {
        self.value@
    }
}

impl SecretToken {
    #[verifier::type_invariant]
    spec fn valid(self) -> bool {
        valid_token(self.value@)
    }

    /// Accept a token; a rejected value is wiped before the error is returned.
    pub fn new(value: String) -> (r: Result<SecretToken, AppError>)
        ensures
            r is Ok <==> valid_token(value@),
            r matches Ok(token) ==> token@ == value@,
            r matches Err(e) ==> e@ == invalid_token_error(),
    {
        let mut value = value;
        if value.as_str().is_empty() || byte_len(value.as_str()) > MAX_TOKEN_BYTES || contains_control(
            value.as_str(),
        ) {
            wipe_text(&mut value);
            return Err(
                AppError::new(
                    ErrorCode::InvalidInput,
                    "credential token must be one non-empty line with no control characters",
                ).with_hint(
                    "Enter the token at the hidden prompt, or pipe exactly one UTF-8 token with `--token-stdin`; tokens are never accepted as command arguments.",
                ),
            );
        }
        Ok(SecretToken { value })
    }

    /// The token text, for the provider request or the credential store only.
    pub fn expose_secret(&self) -> (r: &str)
        ensures
            r@ == self@,
            valid_token(r@),
    {
        proof {
            use_type_invariant(self);
        }
        self.value.as_str()
    }

    /// Overwrite the token's memory and drop it.
    pub fn discard(self) {
        let mut value = self.value;
        wipe_text(&mut value);
    }

    /// The redacted text shown wherever the token would be formatted.
    pub fn redacted(&self) -> (r: &'static str)
        ensures
            r@ == "SecretToken([REDACTED])"@,
    {
        "SecretToken([REDACTED])"
    }
}

// ---------------------------------------------------------------------------------------------
// Credential candidates
// ---------------------------------------------------------------------------------------------
/// A credential offered for a profile: where it will be resolved from, and its token.
pub struct CredentialCandidate {
    source: CredentialSource,
    token: SecretToken,
}

impl CredentialCandidate {
    pub fn new(source: CredentialSource, token: SecretToken) -> (r: CredentialCandidate)
        ensures
            r.source_view() == source,
            r.token_view() == token@,
    {
        CredentialCandidate { source, token }
    }

    pub closed spec fn source_view(&self) -> CredentialSource {
        self.source
    }

    pub closed spec fn token_view(&self) -> Seq<char> {
        self.token@
    }

    pub fn source(&self) -> (r: &CredentialSource)
        ensures
            *r == self.source_view(),
    {
        &self.source
    }

    pub fn token(&self) -> (r: &SecretToken)
        ensures
            r@ == self.token_view(),
    {
        &self.token
    }

    /// A description of the candidate that names its source but never its token.
    pub fn debug_string(&self) -> (r: String)
        ensures
            r@ == "CredentialCandidate { source: "@ + source_description(self.source_view())
                + ", token: \"[REDACTED]\" }"@,
    {
        let mut out = "CredentialCandidate { source: ".to_owned();
        match &self.source {
            CredentialSource::Keyring => push_str(&mut out, "Keyring"),
            CredentialSource::Environment { variable } => {
                push_str(&mut out, "Environment { variable: \"");
                push_str(&mut out, variable.as_str());
                push_str(&mut out, "\" }");
            },
        }
        push_str(&mut out, ", token: \"[REDACTED]\" }");
        out
    }
}

/// How a credential source is described: the store, or the variable's name.
pub open spec fn source_description(source: CredentialSource) -> Seq<char> {
    match source {
        CredentialSource::Keyring => "Keyring"@,
        CredentialSource::Environment { variable } => "Environment { variable: \""@ + variable@
            + "\" }"@,
    }
}

/// Where `collect_credential` obtains a token.
#[derive(Debug, PartialEq, Eq)]
pub enum CredentialPlan {
    /// Read one token from stdin and keep it in the OS credential store.
    ReadStdin,
    /// Read the named environment variable now and on every use.
    Environment { variable: String },
    /// Prompt for the token without echo and keep it in the OS credential store.
    PromptHidden,
}

/// Choose exactly one credential source; without a terminal one must be named.
pub fn credential_plan(token_stdin: bool, credential_env: Option<&str>, interactive: bool) -> (r: Result<
    CredentialPlan,
    AppError,
>)
    ensures
        match (token_stdin, credential_env) {
            (true, Some(_)) => r matches Err(e) && hinted_error(
                e@,
                ErrorCode::InvalidArguments,
                "choose exactly one credential source"@,
                "Use either `--token-stdin` or `--credential-env <NAME>`, not both."@,
            ),
            (true, None) => r == Ok::<CredentialPlan, AppError>(CredentialPlan::ReadStdin),
            (false, Some(variable)) => if valid_environment_variable(variable@) {
                r matches Ok(CredentialPlan::Environment { variable: v }) && v@ == variable@
            } else {
                r matches Err(e) && e@ == crate::profiles::environment_variable_error()
            },
            (false, None) => if interactive {
                r == Ok::<CredentialPlan, AppError>(CredentialPlan::PromptHidden)
            } else {
                r matches Err(e) && hinted_error(
                    e@,
                    ErrorCode::InvalidInput,
                    "a credential source is required in non-interactive mode"@,
                    "Pipe a token with `--token-stdin`, or name an existing variable with `--credential-env <NAME>`."@,
                )
            },
        },
{
    match (token_stdin, credential_env) {
        (true, Some(_)) => Err(
            AppError::new(ErrorCode::InvalidArguments, "choose exactly one credential source").with_hint(
                "Use either `--token-stdin` or `--credential-env <NAME>`, not both.",
            ),
        ),
        (true, None) => Ok(CredentialPlan::ReadStdin),
        (false, Some(variable)) => {
            validate_environment_variable(variable)?;
            Ok(CredentialPlan::Environment { variable: variable.to_owned() })
        },
        (false, None) => if interactive {
            Ok(CredentialPlan::PromptHidden)
        } else {
            Err(
                AppError::new(
                    ErrorCode::InvalidInput,
                    "a credential source is required in non-interactive mode",
                ).with_hint(
                    "Pipe a token with `--token-stdin`, or name an existing variable with `--credential-env <NAME>`.",
                ),
            )
        },
    }
}

// ---------------------------------------------------------------------------------------------
// Tokens from the environment and from stdin
// ---------------------------------------------------------------------------------------------
/// The value of an environment variable as read: unset, not Unicode, or text.
#[derive(Debug)]
pub enum EnvironmentValue {
    Unset,
    NotUnicode,
    Text(String),
}

/// Turn an environment variable's value into a token. Errors name the variable, never its value.
pub fn token_from_environment(variable: &str, value: EnvironmentValue) -> (r: Result<
    SecretToken,
    AppError,
>)
    ensures
        match value {
            EnvironmentValue::Unset => r matches Err(e) && hinted_error(
                e@,
                ErrorCode::AuthenticationFailed,
                "the configured credential environment variable is not set"@,
                "Set `"@ + variable@ + "` in the current process environment, or change the profile credential source."@,
            ),
            EnvironmentValue::NotUnicode => r matches Err(e) && hinted_error(
                e@,
                ErrorCode::AuthenticationFailed,
                "the configured credential environment variable is not valid UTF-8"@,
                "Set the variable to one valid UTF-8 token, then retry."@,
            ),
            EnvironmentValue::Text(text) => if valid_token(text@) {
                r matches Ok(token) && token@ == text@
            } else {
                r matches Err(e) && hinted_error(
                    e@,
                    ErrorCode::AuthenticationFailed,
                    "the configured credential environment variable is empty or malformed"@,
                    "Set the variable to one non-empty token without control characters or embedded newlines."@,
                )
            },
        },
{
    match value {
        EnvironmentValue::Unset => {
            let mut hint = "Set `".to_owned();
            push_str(&mut hint, variable);
            push_str(
                &mut hint,
                "` in the current process environment, or change the profile credential source.",
            );
            Err(
                AppError::new(
                    ErrorCode::AuthenticationFailed,
                    "the configured credential environment variable is not set",
                ).with_hint(hint.as_str()),
            )
        },
        EnvironmentValue::NotUnicode => Err(
            AppError::new(
                ErrorCode::AuthenticationFailed,
                "the configured credential environment variable is not valid UTF-8",
            ).with_hint("Set the variable to one valid UTF-8 token, then retry."),
        ),
        EnvironmentValue::Text(text) => match SecretToken::new(text) {
            Ok(token) => Ok(token),
            Err(_) => Err(
                AppError::new(
                    ErrorCode::AuthenticationFailed,
                    "the configured credential environment variable is empty or malformed",
                ).with_hint(
                    "Set the variable to one non-empty token without control characters or embedded newlines.",
                ),
            ),
        },
    }
}

/// `String::pop`: remove and return the last character.
#[verifier::external_body]
fn pop_char(value: &mut String) -> (r: Option<char>)
    ensures
        old(value)@.len() == 0 ==> r is None && final(value)@ == old(value)@,
        old(value)@.len() > 0 ==> r == Some(old(value)@.last()) && final(value)@ == old(
            value,
        )@.drop_last(),
{
    value.pop()
}

/// The text of one token line: a trailing `\n`, and then a `\r` before it, are removed.
pub open spec fn token_line(text: Seq<char>) -> Seq<char> {
    if text.len() > 0 && text.last() == '\n' {
        let rest = text.drop_last();
        if rest.len() > 0 && rest.last() == '\r' {
            rest.drop_last()
        } else {
            rest
        }
    } else {
        text
    }
}

/// Turn the bytes read from stdin (at most one more than the token limit) into a token. The
/// buffer is wiped on every rejection.
pub fn token_from_stdin_bytes(bytes: Vec<u8>) -> (r: Result<SecretToken, AppError>)
    ensures
        bytes@.len() > MAX_TOKEN_BYTES ==> (r matches Err(e) && hinted_error(
            e@,
            ErrorCode::InvalidInput,
            "credential token is too long"@,
            "Provide the API token only; do not pipe JSON, headers, or command output."@,
        )),
        bytes@.len() <= MAX_TOKEN_BYTES && !valid_utf8(bytes@) ==> (r matches Err(e) && hinted_error(
            e@,
            ErrorCode::InvalidInput,
            "credential token from stdin is not valid UTF-8"@,
            "Pipe the token as UTF-8 text."@,
        )),
        bytes@.len() <= MAX_TOKEN_BYTES && valid_utf8(bytes@) ==> {
            let line = token_line(decode_utf8(bytes@));
            &&& valid_token(line) ==> (r matches Ok(token) && token@ == line)
            &&& !valid_token(line) ==> (r matches Err(e) && e@ == invalid_token_error())
        },
{
    let mut bytes = bytes;
    if bytes.len() > MAX_TOKEN_BYTES {
        wipe_bytes(&mut bytes);
        return Err(
            AppError::new(ErrorCode::InvalidInput, "credential token is too long").with_hint(
                "Provide the API token only; do not pipe JSON, headers, or command output.",
            ),
        );
    }
    let mut value = match string_from_utf8(bytes) {
        Ok(value) => value,
        Err(rejected) => {
            let mut rejected = rejected;
            wipe_bytes(&mut rejected);
            return Err(
                AppError::new(
                    ErrorCode::InvalidInput,
                    "credential token from stdin is not valid UTF-8",
                ).with_hint("Pipe the token as UTF-8 text."),
            );
        },
    };
    let ghost text = value@;
    if ends_with_char(value.as_str(), '\n') {
        pop_char(&mut value);
        if ends_with_char(value.as_str(), '\r') {
            pop_char(&mut value);
        }
    }
    assert(value@ == token_line(text));
    SecretToken::new(value)
}

fn ends_with_char(value: &str, c: char) -> (r: bool)
    ensures
        r == (value@.len() > 0 && value@.last() == c),
{
    let chars = crate::text::chars_of(value);
    chars.len() > 0 && chars[chars.len() - 1] == c
}

/// The error for a failed read of stdin; the partial input is never included.
pub fn stdin_read_error(error: &std::io::Error) -> (r: AppError)
    ensures
        r@.code == ErrorCode::Io,
        r@.hint == Some("Pipe exactly one token followed by EOF, then retry."@),
        exists|kind: Seq<char>|
            r@.message == "failed to read a credential from stdin"@ + " ("@ + kind + ")"@,
{
    AppError::io("failed to read a credential from stdin", error).with_hint(
        "Pipe exactly one token followed by EOF, then retry.",
    )
}

/// The error for a failed hidden prompt.
pub fn prompt_read_error(error: &std::io::Error) -> (r: AppError)
    ensures
        r@.code == ErrorCode::Io,
        r@.hint == Some(
            "Run the command in an interactive terminal, or use `--token-stdin` or `--credential-env <NAME>`."@,
        ),
{
    AppError::io("failed to read a hidden credential from the terminal", error).with_hint(
        "Run the command in an interactive terminal, or use `--token-stdin` or `--credential-env <NAME>`.",
    )
}

// ---------------------------------------------------------------------------------------------
// OS credential store
// ---------------------------------------------------------------------------------------------
/// The credential-store account of a profile: its canonical reference, reparsed so that the
/// account name always follows the public reference grammar.
pub fn keyring_account(reference: &ProviderProfileRef) -> (r: Result<String, AppError>)
    ensures
        r matches Ok(account) ==> account@ == reference_text(*reference),
        r is Ok,
{
    let account = format_profile_ref(reference);
    proof {
        use_type_invariant(&reference.provider);
        use_type_invariant(&reference.profile);
        crate::profiles::lemma_reference_roundtrip(*reference);
    }
    match parse_profile_ref(account.as_str()) {
        Ok(_) => Ok(account),
        Err(e) => Err(e),
    }
}

/// The error for a profile whose keyring entry is missing.
pub fn missing_keyring_credential(reference: &ProviderProfileRef) -> (r: AppError)
    ensures
        hinted_error(
            r@,
            ErrorCode::AuthenticationFailed,
            "the profile credential is missing from the OS credential store"@,
            "Run `hb profile credential set "@ + reference_text(*reference)
                + "` and enter the replacement token securely."@,
        ),
{
    let mut hint = "Run `hb profile credential set ".to_owned();
    let text = format_profile_ref(reference);
    push_str(&mut hint, text.as_str());
    push_str(&mut hint, "` and enter the replacement token securely.");
    AppError::new(
        ErrorCode::AuthenticationFailed,
        "the profile credential is missing from the OS credential store",
    ).with_hint(hint.as_str())
}

pub fn keyring_unavailable() -> (r: AppError)
    ensures
        hinted_error(
            r@,
            ErrorCode::Unavailable,
            "the OS credential store is unavailable"@,
            "Configure a supported desktop credential store, or use `--credential-env <NAME>` instead."@,
        ),
{
    AppError::new(ErrorCode::Unavailable, "the OS credential store is unavailable").with_hint(
        "Configure a supported desktop credential store, or use `--credential-env <NAME>` instead.",
    )
}

pub fn keyring_save_failed() -> (r: AppError)
    ensures
        hinted_error(
            r@,
            ErrorCode::Unavailable,
            "the OS credential store could not save the profile credential"@,
            "Unlock or configure the OS credential store, or use `--credential-env <NAME>` instead."@,
        ),
{
    AppError::new(
        ErrorCode::Unavailable,
        "the OS credential store could not save the profile credential",
    ).with_hint("Unlock or configure the OS credential store, or use `--credential-env <NAME>` instead.")
}

pub fn keyring_read_failed(reference: &ProviderProfileRef) -> (r: AppError)
    ensures
        hinted_error(
            r@,
            ErrorCode::Unavailable,
            "the OS credential store could not read the profile credential"@,
            "Unlock the OS credential store; if the entry was removed, run `hb profile credential set "@
                + reference_text(*reference) + "`."@,
        ),
{
    let mut hint = "Unlock the OS credential store; if the entry was removed, run `hb profile credential set ".to_owned();
    let text = format_profile_ref(reference);
    push_str(&mut hint, text.as_str());
    push_str(&mut hint, "`.");
    AppError::new(
        ErrorCode::Unavailable,
        "the OS credential store could not read the profile credential",
    ).with_hint(hint.as_str())
}

pub fn keyring_delete_failed(reference: &ProviderProfileRef) -> (r: AppError)
    ensures
        hinted_error(
            r@,
            ErrorCode::Unavailable,
            "the OS credential store could not remove the profile credential"@,
            "Unlock the OS credential store and remove the HostBraid entry for "@ + reference_text(
                *reference,
            ) + " manually if cleanup continues to fail."@,
        ),
{
    let mut hint = "Unlock the OS credential store and remove the HostBraid entry for ".to_owned();
    let text = format_profile_ref(reference);
    push_str(&mut hint, text.as_str());
    push_str(&mut hint, " manually if cleanup continues to fail.");
    AppError::new(
        ErrorCode::Unavailable,
        "the OS credential store could not remove the profile credential",
    ).with_hint(hint.as_str())
}

} // verus!
