//! Provider profiles: the secret-free configuration model, profile references, and the
//! configuration changes made by profile commands.
use crate::error::{hinted_error, AppError, AppErrorView, ErrorCode};
use crate::kinsta::acceptable_expiry;
use crate::model::{
    valid_opaque_id, valid_profile_name, valid_provider_id, OpaqueId, ProfileName, ProviderId,
    ProviderProfileRef,
};
use crate::order::{key_less2, key_lt, key_le, lemma_key_order, same_order_per_key, sort_by_key, sorted_by_key, SortKey};
use crate::text::{
    byte_len, chars_of, contains_control, is_ascii_alphanumeric, is_ascii_digit,
    push_str, surrounded_by_whitespace, utf8_len,
};
use vstd::prelude::*;

verus! {

broadcast use vstd::string::group_string_axioms;

/// Version of the profile file format.
pub const CONFIG_SCHEMA_VERSION: u32 = 1;

pub open spec fn repair_hint() -> Seq<char> {
    "Back up profiles.json, then repair it or move it aside; recreate profiles with `hb login`."@
}

// ---------------------------------------------------------------------------------------------
// Credential sources
// ---------------------------------------------------------------------------------------------
/// A safe environment variable name: 1–128 ASCII letters, digits or underscores, not starting
/// with a digit.
pub open spec fn valid_environment_variable(value: Seq<char>) -> bool {
    &&& value.len() > 0
    &&& utf8_len(value) <= 128
    &&& !is_ascii_digit(value[0])
    &&& forall|i: int|
        0 <= i < value.len() ==> is_ascii_alphanumeric(#[trigger] value[i]) || value[i] == '_'
}

pub open spec fn environment_variable_error() -> AppErrorView {
    AppErrorView {
        code: ErrorCode::InvalidInput,
        message: "credential environment variable name is invalid"@,
        hint: Some("Use 1–128 ASCII letters, digits, or underscores, and do not start with a digit."@),
    }
}

/// Check a credential environment variable name without echoing it.
pub fn validate_environment_variable(value: &str) -> (r: Result<(), AppError>)
    ensures
        r is Ok <==> valid_environment_variable(value@),
        r matches Err(e) ==> e@ == environment_variable_error(),
{
    let chars = chars_of(value);
    let mut valid = chars.len() > 0 && byte_len(value) <= 128 && !('0' <= chars[0] && chars[0] <= '9');
    let mut i: usize = 0;
    while valid && i < chars.len()
        invariant
            chars@ == value@,
            i <= chars@.len(),
            valid ==> forall|k: int|
                0 <= k < i ==> is_ascii_alphanumeric(#[trigger] chars@[k]) || chars@[k] == '_',
            valid ==> (chars@.len() > 0 && utf8_len(value@) <= 128 && !is_ascii_digit(chars@[0])),
            !valid ==> !valid_environment_variable(value@),
        decreases chars@.len() - i,
    {
        let c = chars[i];
        if !(('a' <= c && c <= 'z') || ('A' <= c && c <= 'Z') || ('0' <= c && c <= '9') || c == '_') {
            valid = false;
        }
        i = i + 1;
    }
    if !valid {
        return Err(
            AppError::new(
                ErrorCode::InvalidInput,
                "credential environment variable name is invalid",
            ).with_hint(
                "Use 1–128 ASCII letters, digits, or underscores, and do not start with a digit.",
            ),
        );
    }
    Ok(())
}

/// Where a profile's API token is resolved from.
#[derive(Debug, PartialEq, Eq)]
pub enum CredentialSource {
    /// The OS credential store, under the profile's reference.
    Keyring,
    /// A named environment variable, read on every use.
    Environment { variable: String },
}

impl Clone for CredentialSource {
    fn clone(&self) -> (r: Self)
        ensures
            r == *self,
    {
        match self {
            CredentialSource::Keyring => CredentialSource::Keyring,
            CredentialSource::Environment { variable } => CredentialSource::Environment {
                variable: variable.clone(),
            },
        }
    }
}

impl CredentialSource {
    /// An environment-variable source; the name must be safe.
    pub fn environment(variable: &str) -> (r: Result<CredentialSource, AppError>)
        ensures
            r is Ok <==> valid_environment_variable(variable@),
            r matches Ok(source) ==> (source matches CredentialSource::Environment { variable: v }
                && v@ == variable@),
            r matches Err(e) ==> e@ == environment_variable_error(),
    {
        validate_environment_variable(variable)?;
        Ok(CredentialSource::Environment { variable: variable.to_owned() })
    }

    pub fn is_keyring(&self) -> (r: bool)
        ensures
            r == (*self is Keyring),
    {
        match self {
            CredentialSource::Keyring => true,
            _ => false,
        }
    }
}

// ---------------------------------------------------------------------------------------------
// Records and references
// ---------------------------------------------------------------------------------------------
/// One configured provider account; it never holds a secret.
#[derive(Debug, PartialEq, Eq)]
pub struct ProfileRecord {
    pub provider: ProviderId,
    pub name: ProfileName,
    pub company_id: OpaqueId,
    pub credential_source: CredentialSource,
    pub credential_expires_at: Option<String>,
}

impl Clone for ProfileRecord {
    fn clone(&self) -> (r: Self)
        ensures
            r == *self,
    {
        ProfileRecord {
            provider: self.provider.clone(),
            name: self.name.clone(),
            company_id: self.company_id.clone(),
            credential_source: self.credential_source.clone(),
            credential_expires_at: crate::provider::clone_optional(&self.credential_expires_at),
        }
    }
}

/// The record is the profile named by the reference.
pub open spec fn names(p: ProfileRecord, reference: ProviderProfileRef) -> bool {
    p.provider@ == reference.provider@ && p.name@ == reference.profile@
}

impl ProfileRecord {
    /// The record's `provider:name` reference.
    pub fn reference(&self) -> (r: ProviderProfileRef)
        ensures
            r.provider == self.provider,
            r.profile == self.name,
    {
        ProviderProfileRef { provider: self.provider.clone(), profile: self.name.clone() }
    }

    /// Whether this record is the profile named by `reference`.
    pub fn is(&self, reference: &ProviderProfileRef) -> (r: bool)
        ensures
            r == names(*self, *reference),
    {
        self.provider.same(&reference.provider) && self.name.same(&reference.profile)
    }
}

impl SortKey for ProfileRecord {
    open spec fn sort_key(&self) -> Seq<Seq<char>> {
        seq![self.provider@, self.name@]
    }

    fn key_less(&self, other: &Self) -> (r: bool) {
        key_less2(self.provider.as_str(), self.name.as_str(), other.provider.as_str(), other.name.as_str())
    }
}

/// Two references name the same profile.
pub open spec fn same_ref(a: ProviderProfileRef, b: ProviderProfileRef) -> bool {
    a.provider@ == b.provider@ && a.profile@ == b.profile@
}

pub fn same_reference(left: &ProviderProfileRef, right: &ProviderProfileRef) -> (r: bool)
    ensures
        r == same_ref(*left, *right),
{
    left.same(right)
}

pub open spec fn invalid_reference_error() -> AppErrorView {
    AppErrorView {
        code: ErrorCode::InvalidInput,
        message: "profile reference must use the exact provider:name form"@,
        hint: Some("For example, `kinsta:agency`. Run `hb profiles` to list valid references."@),
    }
}

pub fn invalid_profile_reference() -> (r: AppError)
    ensures
        r@ == invalid_reference_error(),
{
    AppError::new(ErrorCode::InvalidInput, "profile reference must use the exact provider:name form").with_hint(
        "For example, `kinsta:agency`. Run `hb profiles` to list valid references.",
    )
}

/// The text of a reference: `provider:name`.
pub open spec fn reference_text(r: ProviderProfileRef) -> Seq<char> {
    r.provider@ + ":"@ + r.profile@
}

/// A valid `provider:name` text, split at its colon.
pub open spec fn parses_as(value: Seq<char>, provider: Seq<char>, profile: Seq<char>) -> bool {
    value == provider + ":"@ + profile && valid_provider_id(provider) && valid_profile_name(profile)
}

/// The canonical `provider:name` form of a reference.
pub fn format_profile_ref(reference: &ProviderProfileRef) -> (r: String)
    ensures
        r@ == reference_text(*reference),
{
    let mut out = reference.provider.as_str().to_owned();
    push_str(&mut out, ":");
    push_str(&mut out, reference.profile.as_str());
    out
}

fn text_range(chars: &Vec<char>, start: usize, end: usize) -> (r: String)
    requires
        start <= end <= chars@.len(),
    ensures
        r@ == chars@.subrange(start as int, end as int),
{
    let mut out = String::new();
    let mut i = start;
    while i < end
        invariant
            start <= i <= end <= chars@.len(),
            out@ == chars@.subrange(start as int, i as int),
        decreases end - i,
    {
        crate::text::push_char(&mut out, chars[i]);
        assert(chars@.subrange(start as int, i + 1) =~= chars@.subrange(start as int, i as int).push(
            chars@[i as int],
        ));
        i = i + 1;
    }
    out
}

proof fn lemma_no_colon_in_names(s: Seq<char>)
    ensures
        valid_provider_id(s) ==> !s.contains(':'),
        valid_profile_name(s) ==> !s.contains(':'),
{
    if valid_provider_id(s) && s.contains(':') {
        let i = choose|i: int| 0 <= i < s.len() && s[i] == ':';
        assert((|c: char| crate::model::provider_id_char(c))(s[i]));
    }
    if valid_profile_name(s) && s.contains(':') {
        let i = choose|i: int| 0 <= i < s.len() && s[i] == ':';
        assert((|c: char| crate::model::profile_name_char(c))(s[i]));
    }
}

/// Parse an exact `provider:name` reference; anything else is rejected without echoing it.
pub fn parse_profile_ref(value: &str) -> (r: Result<ProviderProfileRef, AppError>)
    ensures
        r is Ok <==> exists|provider: Seq<char>, profile: Seq<char>|
            #[trigger] parses_as(value@, provider, profile),
        r matches Ok(reference) ==> parses_as(value@, reference.provider@, reference.profile@),
        r matches Err(e) ==> e@ == invalid_reference_error(),
{
    proof {
        reveal_strlit(":");
    }
    let chars = chars_of(value);
    let mut colon: usize = 0;
    while colon < chars.len() && chars[colon] != ':'
        invariant
            chars@ == value@,
            colon <= chars@.len(),
            forall|k: int| 0 <= k < colon ==> chars@[k] != ':',
        decreases chars@.len() - colon,
    {
        colon = colon + 1;
    }
    if colon == chars.len() {
        proof {
            assert forall|provider: Seq<char>, profile: Seq<char>|
                !#[trigger] parses_as(value@, provider, profile) by {
                if parses_as(value@, provider, profile) {
                    assert(value@[provider.len() as int] == ':');
                }
            }
        }
        return Err(invalid_profile_reference());
    }
    let provider = text_range(&chars, 0, colon);
    let profile = text_range(&chars, colon + 1, chars.len());
    proof {
        assert(value@ =~= provider@ + ":"@ + profile@);
        assert forall|p: Seq<char>, q: Seq<char>| #[trigger] parses_as(value@, p, q) implies p
            == provider@ && q == profile@ by {
            lemma_no_colon_in_names(p);
            if p.len() < colon {
                assert(value@[p.len() as int] == ':');
            } else if p.len() > colon {
                assert(p[colon as int] == value@[colon as int]);
                assert(p.contains(':'));
            }
            assert(p =~= provider@);
            assert(q =~= profile@);
        }
    }
    match ProviderProfileRef::try_new(provider.as_str(), profile.as_str()) {
        Ok(reference) => {
            assert(parses_as(value@, provider@, profile@));
            Ok(reference)
        },
        Err(_) => Err(invalid_profile_reference()),
    }
}

/// Formatting then parsing a reference gives the reference back.
pub proof fn lemma_reference_roundtrip(reference: ProviderProfileRef)
    requires
        valid_provider_id(reference.provider@),
        valid_profile_name(reference.profile@),
    ensures
        parses_as(reference_text(reference), reference.provider@, reference.profile@),
        forall|p: Seq<char>, q: Seq<char>| #[trigger]
            parses_as(reference_text(reference), p, q) ==> p == reference.provider@ && q
                == reference.profile@,
{
    reveal_strlit(":");
    let text = reference_text(reference);
    lemma_no_colon_in_names(reference.provider@);
    assert forall|p: Seq<char>, q: Seq<char>| #[trigger] parses_as(text, p, q) implies p
        == reference.provider@ && q == reference.profile@ by {
        lemma_no_colon_in_names(p);
        let n = reference.provider@.len();
        if p.len() < n {
            assert(text[p.len() as int] == ':');
            assert(reference.provider@[p.len() as int] == ':');
            assert(reference.provider@.contains(':'));
        } else if p.len() > n {
            assert(p[n as int] == text[n as int]);
            assert(p.contains(':'));
        }
        assert(text.subrange(0, n as int) =~= p);
        assert(text.subrange(0, n as int) =~= reference.provider@);
        assert(text.subrange(n as int + 1, text.len() as int) =~= q);
        assert(text.subrange(n as int + 1, text.len() as int) =~= reference.profile@);
    }
}

// ---------------------------------------------------------------------------------------------
// Validated provider metadata
// ---------------------------------------------------------------------------------------------
pub open spec fn invalid_metadata_error() -> AppErrorView {
    AppErrorView {
        code: ErrorCode::InvalidInput,
        message: "the provider returned credential metadata HostBraid could not validate"@,
        hint: Some("Update HostBraid and retry; if it repeats, report the provider compatibility issue."@),
    }
}

pub fn invalid_provider_credential_metadata() -> (r: AppError)
    ensures
        r@ == invalid_metadata_error(),
{
    AppError::new(
        ErrorCode::InvalidInput,
        "the provider returned credential metadata HostBraid could not validate",
    ).with_hint("Update HostBraid and retry; if it repeats, report the provider compatibility issue.")
}

/// Company and expiry metadata returned by the provider for a validated credential.
#[derive(Debug, PartialEq, Eq)]
pub struct ValidatedCredential {
    pub company_id: OpaqueId,
    pub expires_at: Option<String>,
}

pub open spec fn expiry_ok(expires_at: Option<String>) -> bool {
    match expires_at {
        Some(x) => acceptable_expiry(x@),
        None => true,
    }
}

fn check_expiry(expires_at: &Option<String>) -> (r: bool)
    ensures
        r == expiry_ok(*expires_at),
{
    match expires_at {
        Some(value) => !(byte_len(value.as_str()) > 128 || surrounded_by_whitespace(value.as_str())
            || contains_control(value.as_str())),
        None => true,
    }
}

impl ValidatedCredential {
    pub fn new(company_id: &str, expires_at: Option<String>) -> (r: Result<ValidatedCredential, AppError>)
        ensures
            r is Ok <==> expiry_ok(expires_at) && valid_opaque_id(company_id@),
            r matches Ok(v) ==> v.company_id@ == company_id@ && v.expires_at == expires_at,
            r matches Err(e) ==> e@ == invalid_metadata_error(),
    {
        if !check_expiry(&expires_at) {
            return Err(invalid_provider_credential_metadata());
        }
        match OpaqueId::new(company_id) {
            Ok(company_id) => Ok(ValidatedCredential { company_id, expires_at }),
            Err(_) => Err(invalid_provider_credential_metadata()),
        }
    }
}

// ---------------------------------------------------------------------------------------------
// Configuration
// ---------------------------------------------------------------------------------------------
/// The profile file: its format version, the explicit default, and every profile.
#[derive(Debug, PartialEq, Eq)]
pub struct ProfileConfig {
    pub schema_version: u32,
    pub default_profile: Option<ProviderProfileRef>,
    pub profiles: Vec<ProfileRecord>,
}

/// The first record naming the reference, if any.
pub open spec fn find_record(profiles: Seq<ProfileRecord>, reference: ProviderProfileRef) -> Option<
    ProfileRecord,
>
    decreases profiles.len(),
{
    if profiles.len() == 0 {
        None
    } else if names(profiles[0], reference) {
        Some(profiles[0])
    } else {
        find_record(profiles.drop_first(), reference)
    }
}

/// Index of the first record naming the reference, if any.
pub open spec fn find_index(profiles: Seq<ProfileRecord>, reference: ProviderProfileRef) -> Option<int>
    decreases profiles.len(),
{
    if profiles.len() == 0 {
        None
    } else if names(profiles[0], reference) {
        Some(0)
    } else {
        match find_index(profiles.drop_first(), reference) {
            Some(i) => Some(i + 1),
            None => None,
        }
    }
}

pub proof fn lemma_find_index(profiles: Seq<ProfileRecord>, reference: ProviderProfileRef)
    ensures
        find_index(profiles, reference) is Some <==> exists|i: int|
            0 <= i < profiles.len() && #[trigger] names(profiles[i], reference),
        find_index(profiles, reference) matches Some(i) ==> 0 <= i < profiles.len() && names(
            profiles[i],
            reference,
        ) && forall|j: int| 0 <= j < i ==> !#[trigger] names(profiles[j], reference),
        find_index(profiles, reference) matches Some(i) ==> find_record(profiles, reference) == Some(
            profiles[i],
        ),
        find_index(profiles, reference) is None ==> find_record(profiles, reference) is None,
    decreases profiles.len(),
{
    if profiles.len() > 0 {
        let rest = profiles.drop_first();
        lemma_find_index(rest, reference);
        if !names(profiles[0], reference) {
            if exists|i: int| 0 <= i < profiles.len() && #[trigger] names(profiles[i], reference) {
                let i = choose|i: int| 0 <= i < profiles.len() && #[trigger] names(profiles[i], reference);
                assert(names(rest[i - 1], reference));
            }
            if let Some(i) = find_index(rest, reference) {
                assert forall|j: int| 0 <= j < i + 1 implies !#[trigger] names(profiles[j], reference) by {
                    if j > 0 {
                        assert(profiles[j] == rest[j - 1]);
                    }
                }
            }
        }
    }
}

pub open spec fn unsupported_schema_error() -> AppErrorView {
    AppErrorView {
        code: ErrorCode::Unsupported,
        message: "profile configuration uses an unsupported schema version"@,
        hint: Some(
            "Install a HostBraid version that supports this profile file before running profile or provider commands."@,
        ),
    }
}

/// What is wrong with one record of the profile file, if anything.
pub open spec fn record_error(p: ProfileRecord) -> Option<AppErrorView> {
    if p.credential_source matches CredentialSource::Environment { variable }
        && !valid_environment_variable(variable@) {
        Some(
            AppErrorView {
                code: ErrorCode::InvalidInput,
                message: "profile configuration contains an invalid credential environment variable"@,
                hint: Some(repair_hint()),
            },
        )
    } else if !expiry_ok(p.credential_expires_at) {
        Some(
            AppErrorView {
                code: ErrorCode::InvalidInput,
                message: "profile configuration contains invalid credential expiry metadata"@,
                hint: Some(repair_hint()),
            },
        )
    } else {
        None
    }
}

/// The first record error, in order.
pub open spec fn first_record_error(profiles: Seq<ProfileRecord>) -> Option<AppErrorView>
    decreases profiles.len(),
{
    if profiles.len() == 0 {
        None
    } else if record_error(profiles[0]) is Some {
        record_error(profiles[0])
    } else {
        first_record_error(profiles.drop_first())
    }
}

/// Two records name the same profile.
pub open spec fn has_duplicate(profiles: Seq<ProfileRecord>) -> bool {
    exists|i: int, j: int|
        0 <= i < j < profiles.len() && #[trigger] profiles[i].sort_key() == #[trigger] profiles[j].sort_key()
}

/// What is wrong with a configuration whose profiles are in file order, if anything.
pub open spec fn configuration_error(c: ProfileConfig) -> Option<AppErrorView> {
    if c.schema_version != CONFIG_SCHEMA_VERSION {
        Some(unsupported_schema_error())
    } else if first_record_error(c.profiles@) is Some {
        first_record_error(c.profiles@)
    } else if has_duplicate(c.profiles@) {
        Some(
            AppErrorView {
                code: ErrorCode::InvalidInput,
                message: "profile configuration contains a duplicate profile reference"@,
                hint: Some(repair_hint()),
            },
        )
    } else if c.default_profile matches Some(d) && find_record(c.profiles@, d) is None {
        Some(
            AppErrorView {
                code: ErrorCode::InvalidInput,
                message: "the configured default profile does not exist"@,
                hint: Some(repair_hint()),
            },
        )
    } else {
        None
    }
}

proof fn lemma_sorted_duplicates_adjacent(profiles: Seq<ProfileRecord>)
    requires
        sorted_by_key(profiles),
    ensures
        has_duplicate(profiles) <==> exists|i: int|
            0 <= i < profiles.len() - 1 && #[trigger] profiles[i].sort_key()
                == profiles[i + 1].sort_key(),
{
    if has_duplicate(profiles) {
        let (i, j) = choose|i: int, j: int|
            0 <= i < j < profiles.len() && #[trigger] profiles[i].sort_key()
                == #[trigger] profiles[j].sort_key();
        lemma_key_order();
        let klt = |a: Seq<Seq<char>>, b: Seq<Seq<char>>| key_lt(a, b);
        assert(key_le(profiles[i].sort_key(), profiles[i + 1].sort_key()));
        if profiles[i].sort_key() != profiles[i + 1].sort_key() {
            assert(klt(profiles[i].sort_key(), profiles[i + 1].sort_key()));
            if i + 1 < j {
                assert(key_le(profiles[i + 1].sort_key(), profiles[j].sort_key()));
                if profiles[i + 1].sort_key() != profiles[j].sort_key() {
                    assert(klt(profiles[i + 1].sort_key(), profiles[j].sort_key()));
                }
                assert(!klt(profiles[i].sort_key(), profiles[i].sort_key()));
            }
        }
        assert(profiles[i].sort_key() == profiles[i + 1].sort_key());
    }
    if exists|i: int| 0 <= i < profiles.len() - 1 && #[trigger] profiles[i].sort_key()
        == profiles[i + 1].sort_key() {
        let i = choose|i: int|
            0 <= i < profiles.len() - 1 && #[trigger] profiles[i].sort_key() == profiles[i
                + 1].sort_key();
        assert(profiles[i].sort_key() == profiles[i + 1].sort_key());
    }
}

fn record_problem(p: &ProfileRecord) -> (r: Result<(), AppError>)
    ensures
        match record_error(*p) {
            None => r is Ok,
            Some(e) => r matches Err(err) && err@ == e,
        },
{
    if let CredentialSource::Environment { variable } = &p.credential_source {
        if validate_environment_variable(variable.as_str()).is_err() {
            return Err(
                AppError::new(
                    ErrorCode::InvalidInput,
                    "profile configuration contains an invalid credential environment variable",
                ).with_hint(
                    "Back up profiles.json, then repair it or move it aside; recreate profiles with `hb login`.",
                ),
            );
        }
    }
    if !check_expiry(&p.credential_expires_at) {
        return Err(
            AppError::new(
                ErrorCode::InvalidInput,
                "profile configuration contains invalid credential expiry metadata",
            ).with_hint(
                "Back up profiles.json, then repair it or move it aside; recreate profiles with `hb login`.",
            ),
        );
    }
    Ok(())
}

impl ProfileConfig {
    /// An empty configuration of the current format.
    pub fn empty() -> (r: ProfileConfig)
        ensures
            r.schema_version == CONFIG_SCHEMA_VERSION,
            r.default_profile is None,
            r.profiles@.len() == 0,
    {
        ProfileConfig { schema_version: CONFIG_SCHEMA_VERSION, default_profile: None, profiles: Vec::new() }
    }

    /// The profile named by `reference`, if configured.
    pub fn find(&self, reference: &ProviderProfileRef) -> (r: Option<&ProfileRecord>)
        ensures
            match r {
                Some(p) => find_record(self.profiles@, *reference) == Some(*p),
                None => find_record(self.profiles@, *reference) is None,
            },
    {
        match self.position(reference) {
            Some(i) => Some(&self.profiles[i]),
            None => None,
        }
    }

    /// Index of the profile named by `reference`, if configured.
    pub fn position(&self, reference: &ProviderProfileRef) -> (r: Option<usize>)
        ensures
            match r {
                Some(i) => find_index(self.profiles@, *reference) == Some(i as int),
                None => find_index(self.profiles@, *reference) is None,
            },
            r matches Some(i) ==> i < self.profiles@.len() && find_record(self.profiles@, *reference)
                == Some(self.profiles@[i as int]),
            r is None ==> find_record(self.profiles@, *reference) is None,
    {
        let mut i: usize = 0;
        while i < self.profiles.len()
            invariant
                i <= self.profiles@.len(),
                forall|j: int| 0 <= j < i ==> !#[trigger] names(self.profiles@[j], *reference),
            decreases self.profiles@.len() - i,
        {
            if self.profiles[i].is(reference) {
                proof {
                    lemma_find_index(self.profiles@, *reference);
                    if let Some(k) = find_index(self.profiles@, *reference) {
                        if k < i {
                            assert(!names(self.profiles@[k], *reference));
                        } else if k > i {
                            assert(!names(self.profiles@[i as int], *reference));
                        }
                    }
                }
                return Some(i);
            }
            i = i + 1;
        }
        proof {
            lemma_find_index(self.profiles@, *reference);
        }
        None
    }

    /// Sort profiles by provider and name, then check the format version, every record, that no
    /// reference repeats, and that the default exists. Profiles stay sorted even when a later
    /// check fails.
    pub fn normalize_and_validate(&mut self) -> (r: Result<(), AppError>)
        ensures
            old(self).schema_version != CONFIG_SCHEMA_VERSION ==> (*final(self) == *old(self) && (r matches Err(e)
                && e@ == unsupported_schema_error())),
            old(self).schema_version == CONFIG_SCHEMA_VERSION ==> {
                &&& final(self).schema_version == old(self).schema_version
                &&& final(self).default_profile == old(self).default_profile
                &&& final(self).profiles@.to_multiset() == old(self).profiles@.to_multiset()
                &&& sorted_by_key(final(self).profiles@)
                &&& same_order_per_key(final(self).profiles@, old(self).profiles@)
                &&& match configuration_error(*final(self)) {
                    None => r is Ok,
                    Some(e) => r matches Err(err) && err@ == e,
                }
            },
    {
        if self.schema_version != CONFIG_SCHEMA_VERSION {
            return Err(
                AppError::new(
                    ErrorCode::Unsupported,
                    "profile configuration uses an unsupported schema version",
                ).with_hint(
                    "Install a HostBraid version that supports this profile file before running profile or provider commands.",
                ),
            );
        }
        sort_by_key(&mut self.profiles);
        let ghost sorted = self.profiles@;
        let mut i: usize = 0;
        assert(sorted.skip(0) =~= sorted);
        while i < self.profiles.len()
            invariant
                sorted == self.profiles@,
                old(self).schema_version == CONFIG_SCHEMA_VERSION,
                self.schema_version == old(self).schema_version,
                self.default_profile == old(self).default_profile,
                self.profiles@.to_multiset() == old(self).profiles@.to_multiset(),
                sorted_by_key(self.profiles@),
                same_order_per_key(self.profiles@, old(self).profiles@),
                i <= sorted.len(),
                first_record_error(sorted) == first_record_error(sorted.skip(i as int)),
            decreases sorted.len() - i,
        {
            assert(sorted.skip(i as int).drop_first() =~= sorted.skip(i + 1));
            record_problem(&self.profiles[i])?;
            i = i + 1;
        }
        assert(sorted.skip(sorted.len() as int).len() == 0);
        proof {
            lemma_sorted_duplicates_adjacent(sorted);
        }
        let mut k: usize = 0;
        while k < self.profiles.len() && self.profiles.len() - k > 1
            invariant
                sorted == self.profiles@,
                old(self).schema_version == CONFIG_SCHEMA_VERSION,
                self.schema_version == old(self).schema_version,
                self.default_profile == old(self).default_profile,
                self.profiles@.to_multiset() == old(self).profiles@.to_multiset(),
                sorted_by_key(self.profiles@),
                same_order_per_key(self.profiles@, old(self).profiles@),
                first_record_error(sorted) is None,
                has_duplicate(sorted) <==> exists|i: int|
                    0 <= i < sorted.len() - 1 && #[trigger] sorted[i].sort_key()
                        == sorted[i + 1].sort_key(),
                k <= sorted.len(),
                forall|q: int| 0 <= q < k ==> #[trigger] sorted[q].sort_key() != sorted[q + 1].sort_key(),
            decreases sorted.len() - k,
        {
            if self.profiles[k].provider.same(&self.profiles[k + 1].provider) && self.profiles[k].name.same(
                &self.profiles[k + 1].name,
            ) {
                assert(sorted[k as int].sort_key() =~= sorted[k + 1].sort_key());
                return Err(
                    AppError::new(
                        ErrorCode::InvalidInput,
                        "profile configuration contains a duplicate profile reference",
                    ).with_hint(
                        "Back up profiles.json, then repair it or move it aside; recreate profiles with `hb login`.",
                    ),
                );
            }
            k = k + 1;
        }
        if let Some(reference) = &self.default_profile {
            if self.find(reference).is_none() {
                return Err(
                    AppError::new(
                        ErrorCode::InvalidInput,
                        "the configured default profile does not exist",
                    ).with_hint(
                        "Back up profiles.json, then repair it or move it aside; recreate profiles with `hb login`.",
                    ),
                );
            }
        }
        Ok(())
    }
}

// ---------------------------------------------------------------------------------------------
// Profile changes
// ---------------------------------------------------------------------------------------------
pub open spec fn not_found_error() -> AppErrorView {
    AppErrorView {
        code: ErrorCode::NotFound,
        message: "the exact provider profile was not found"@,
        hint: None,
    }
}

pub fn profile_not_found() -> (r: AppError)
    ensures
        r@ == not_found_error(),
{
    AppError::new(ErrorCode::NotFound, "the exact provider profile was not found")
}

pub open spec fn rollback_failed_error() -> AppErrorView {
    AppErrorView {
        code: ErrorCode::Internal,
        message: "the profile configuration was not changed, but credential rollback failed"@,
        hint: Some("Run `hostbraid profile credential set provider:name` before using the profile."@),
    }
}

pub fn rollback_failed() -> (r: AppError)
    ensures
        r@ == rollback_failed_error(),
{
    AppError::new(
        ErrorCode::Internal,
        "the profile configuration was not changed, but credential rollback failed",
    ).with_hint("Run `hostbraid profile credential set provider:name` before using the profile.")
}

/// The error for adding a profile whose reference is already configured.
pub open spec fn duplicate_profile_error(reference: ProviderProfileRef) -> AppErrorView {
    AppErrorView {
        code: ErrorCode::InvalidInput,
        message: "a profile with that exact reference already exists"@,
        hint: Some(
            "Use `hostbraid profile credential set "@ + reference_text(reference)
                + "` to rotate its credential."@,
        ),
    }
}

pub fn duplicate_profile(reference: &ProviderProfileRef) -> (r: AppError)
    ensures
        r@ == duplicate_profile_error(*reference),
{
    let mut hint = "Use `hostbraid profile credential set ".to_owned();
    let text = format_profile_ref(reference);
    push_str(&mut hint, text.as_str());
    push_str(&mut hint, "` to rotate its credential.");
    AppError::new(ErrorCode::InvalidInput, "a profile with that exact reference already exists").with_hint(
        hint.as_str(),
    )
}

/// Record a new profile, optionally as the default. An existing reference is refused.
pub fn add_profile(config: &mut ProfileConfig, profile: ProfileRecord, make_default: bool) -> (r: Result<
    (),
    AppError,
>)
    ensures
        (r is Err) <==> find_record(old(config).profiles@, profile.reference_view()) is Some,
        r matches Err(e) ==> e@ == duplicate_profile_error(profile.reference_view()),
        r is Err ==> *final(config) == *old(config),
        r is Ok ==> {
            &&& final(config).schema_version == old(config).schema_version
            &&& final(config).profiles@ == old(config).profiles@.push(profile)
            &&& final(config).default_profile == if make_default {
                Some(profile.reference_view())
            } else {
                old(config).default_profile
            }
            &&& find_record(final(config).profiles@, profile.reference_view()) == Some(profile)
        },
{
    let reference = profile.reference();
    if config.find(&reference).is_some() {
        return Err(duplicate_profile(&reference));
    }
    let ghost before = config.profiles@;
    config.profiles.push(profile);
    proof {
        lemma_find_record_append(before, config.profiles@[before.len() as int], reference);
    }
    if make_default {
        config.default_profile = Some(reference);
    }
    Ok(())
}

proof fn lemma_find_record_append(
    profiles: Seq<ProfileRecord>,
    p: ProfileRecord,
    reference: ProviderProfileRef,
)
    requires
        find_record(profiles, reference) is None,
        names(p, reference),
    ensures
        find_record(profiles.push(p), reference) == Some(p),
    decreases profiles.len(),
{
    if profiles.len() > 0 {
        assert(profiles.push(p).drop_first() =~= profiles.drop_first().push(p));
        lemma_find_record_append(profiles.drop_first(), p, reference);
    } else {
        assert(profiles.push(p)[0] == p);
    }
}

impl ProfileRecord {
    /// The reference of the record, as a value.
    pub open spec fn reference_view(self) -> ProviderProfileRef {
        ProviderProfileRef { provider: self.provider, profile: self.name }
    }
}

/// Make an existing profile the default and return it.
pub fn set_default_profile(config: &mut ProfileConfig, reference: &ProviderProfileRef) -> (r: Result<
    ProfileRecord,
    AppError,
>)
    ensures
        (r is Err) <==> find_record(old(config).profiles@, *reference) is None,
        r matches Err(e) ==> e@ == not_found_error(),
        r is Err ==> *final(config) == *old(config),
        r matches Ok(p) ==> {
            &&& Some(p) == find_record(old(config).profiles@, *reference)
            &&& final(config).profiles@ == old(config).profiles@
            &&& final(config).schema_version == old(config).schema_version
            &&& final(config).default_profile == Some(*reference)
        },
{
    let profile = match config.find(reference) {
        Some(p) => p.clone(),
        None => {
            return Err(profile_not_found());
        },
    };
    config.default_profile = Some(reference.clone());
    Ok(profile)
}

/// Remove a profile; a default naming it is cleared.
pub fn remove_profile(config: &mut ProfileConfig, reference: &ProviderProfileRef) -> (r: Result<
    ProfileRecord,
    AppError,
>)
    ensures
        (r is Err) <==> find_record(old(config).profiles@, *reference) is None,
        r matches Err(e) ==> e@ == not_found_error(),
        r is Err ==> *final(config) == *old(config),
        r matches Ok(p) ==> {
            let i = find_index(old(config).profiles@, *reference)->0;
            &&& Some(p) == find_record(old(config).profiles@, *reference)
            &&& final(config).profiles@ == old(config).profiles@.remove(i)
            &&& final(config).schema_version == old(config).schema_version
            &&& final(config).default_profile == match old(config).default_profile {
                Some(d) => if same_ref(d, *reference) {
                    None
                } else {
                    Some(d)
                },
                None => None,
            }
        },
{
    let index = match config.position(reference) {
        Some(i) => i,
        None => {
            return Err(profile_not_found());
        },
    };
    let profile = config.profiles.remove(index);
    let clear = match &config.default_profile {
        Some(d) => same_reference(d, reference),
        None => false,
    };
    if clear {
        config.default_profile = None;
    }
    Ok(profile)
}

/// After removal, no configured profile is the removed one when references were unique.
pub proof fn lemma_removed_profile_is_gone(profiles: Seq<ProfileRecord>, reference: ProviderProfileRef)
    requires
        !has_duplicate(profiles),
        find_index(profiles, reference) is Some,
    ensures
        find_record(profiles.remove(find_index(profiles, reference)->0), reference) is None,
{
    lemma_find_index(profiles, reference);
    let i = find_index(profiles, reference)->0;
    let rest = profiles.remove(i);
    lemma_find_index(rest, reference);
    if let Some(j) = find_index(rest, reference) {
        let k = if j < i {
            j
        } else {
            j + 1
        };
        assert(rest[j] == profiles[k]);
        assert(names(profiles[k], reference));
        if k < i {
            assert(!names(profiles[k], reference));
        } else {
            assert(profiles[i].sort_key() =~= profiles[k].sort_key());
            assert(has_duplicate(profiles));
        }
    }
}

/// What changing a profile's credential checks before any credential store is touched: the
/// profile exists and the new credential belongs to the same company. Returns the profile's
/// index and whether its current credential lives in the OS credential store.
pub fn credential_change_target(
    config: &ProfileConfig,
    reference: &ProviderProfileRef,
    validated: &ValidatedCredential,
) -> (r: Result<(usize, bool), AppError>)
    ensures
        find_record(config.profiles@, *reference) is None ==> (r matches Err(e) && e@
            == not_found_error()),
        find_record(config.profiles@, *reference) matches Some(p) ==> if p.company_id@
            != validated.company_id@ {
            r matches Err(e) && hinted_error(
                e@,
                ErrorCode::PolicyDenied,
                "the replacement credential belongs to a different provider company"@,
                "Create a new profile for credentials belonging to another company."@,
            )
        } else {
            r matches Ok((i, keyring)) && find_index(config.profiles@, *reference) == Some(i as int)
                && keyring == (p.credential_source is Keyring)
        },
{
    let index = match config.position(reference) {
        Some(i) => i,
        None => {
            return Err(profile_not_found());
        },
    };
    let profile = &config.profiles[index];
    if !profile.company_id.same(&validated.company_id) {
        return Err(
            AppError::new(
                ErrorCode::PolicyDenied,
                "the replacement credential belongs to a different provider company",
            ).with_hint("Create a new profile for credentials belonging to another company."),
        );
    }
    Ok((index, profile.credential_source.is_keyring()))
}

/// Switch the profile at `index` to a new credential source and expiry, returning it.
pub fn apply_credential_change(
    config: &mut ProfileConfig,
    index: usize,
    source: CredentialSource,
    expires_at: Option<String>,
) -> (r: ProfileRecord)
    requires
        index < old(config).profiles@.len(),
    ensures
        final(config).schema_version == old(config).schema_version,
        final(config).default_profile == old(config).default_profile,
        final(config).profiles@.len() == old(config).profiles@.len(),
        forall|k: int|
            0 <= k < old(config).profiles@.len() && k != index ==> #[trigger] final(config).profiles@[k]
                == old(config).profiles@[k],
        r == final(config).profiles@[index as int],
        r.provider == old(config).profiles@[index as int].provider,
        r.name == old(config).profiles@[index as int].name,
        r.company_id == old(config).profiles@[index as int].company_id,
        r.credential_source == source,
        r.credential_expires_at == expires_at,
{
    let old_profile = config.profiles.remove(index);
    let updated = ProfileRecord {
        provider: old_profile.provider,
        name: old_profile.name,
        company_id: old_profile.company_id,
        credential_source: source,
        credential_expires_at: expires_at,
    };
    let result = updated.clone();
    config.profiles.insert(index, updated);
    result
}

/// How to undo a credential store write after the configuration change failed.
#[derive(Debug, Clone, Copy, PartialEq, Eq, Structural)]
pub enum CredentialRollback {
    /// Nothing was written to the credential store.
    Nothing,
    /// Put the previous token back.
    RestorePrevious,
    /// Delete the token that was just written.
    DeleteNew,
}

/// The rollback owed after a failed configuration change.
pub fn credential_rollback(new_token_written: bool, previous_token_saved: bool) -> (r: CredentialRollback)
    ensures
        r == if !new_token_written {
            CredentialRollback::Nothing
        } else if previous_token_saved {
            CredentialRollback::RestorePrevious
        } else {
            CredentialRollback::DeleteNew
        },
{
    if !new_token_written {
        CredentialRollback::Nothing
    } else if previous_token_saved {
        CredentialRollback::RestorePrevious
    } else {
        CredentialRollback::DeleteNew
    }
}

/// A keyring token left behind when a profile moves away from the credential store is deleted.
pub fn stale_keyring_token(previous_was_keyring: bool, new_source: &CredentialSource) -> (r: bool)
    ensures
        r == (previous_was_keyring && !(*new_source is Keyring)),
{
    previous_was_keyring && !new_source.is_keyring()
}

/// The profile chosen for a provider command: the explicit reference, or the configured default.
/// A sole profile is never chosen implicitly.
pub fn select_profile(config: &ProfileConfig, explicit: Option<&str>) -> (r: Result<
    ProfileRecord,
    AppError,
>)
    ensures
        match explicit {
            Some(text) => if !(exists|p: Seq<char>, q: Seq<char>| #[trigger] parses_as(text@, p, q)) {
                r matches Err(e) && e@ == invalid_reference_error()
            } else {
                match r {
                    Ok(profile) => exists|reference: ProviderProfileRef|
                        parses_as(text@, reference.provider@, reference.profile@) && #[trigger] find_record(
                            config.profiles@,
                            reference,
                        ) == Some(profile),
                    Err(e) => e@ == not_found_error(),
                }
            },
            None => match config.default_profile {
                None => r matches Err(e) && hinted_error(
                    e@,
                    ErrorCode::InvalidInput,
                    "no default provider profile is configured"@,
                    "Pass --profile provider:name or run `hb use provider:name`."@,
                ),
                Some(d) => match find_record(config.profiles@, d) {
                    Some(p) => r == Ok::<ProfileRecord, AppError>(p),
                    None => r matches Err(e) && e@ == not_found_error(),
                },
            },
        },
{
    let reference = match explicit {
        Some(text) => parse_profile_ref(text)?,
        None => match &config.default_profile {
            Some(d) => d.clone(),
            None => {
                return Err(
                    AppError::new(
                        ErrorCode::InvalidInput,
                        "no default provider profile is configured",
                    ).with_hint("Pass --profile provider:name or run `hb use provider:name`."),
                );
            },
        },
    };
    match config.find(&reference) {
        Some(p) => Ok(p.clone()),
        None => Err(profile_not_found()),
    }
}

/// A profile and whether it is the default.
#[derive(Debug, PartialEq, Eq)]
pub struct ProfileSnapshot {
    pub profile: ProfileRecord,
    pub is_default: bool,
}

/// The profile named by `reference` and whether it is the default.
pub fn show_snapshot(config: &ProfileConfig, reference: &ProviderProfileRef) -> (r: Result<
    ProfileSnapshot,
    AppError,
>)
    ensures
        match find_record(config.profiles@, *reference) {
            None => r matches Err(e) && e@ == not_found_error(),
            Some(p) => r matches Ok(s) && s.profile == p && s.is_default == (config.default_profile matches Some(
                d,
            ) && same_ref(d, *reference)),
        },
{
    let profile = match config.find(reference) {
        Some(p) => p.clone(),
        None => {
            return Err(profile_not_found());
        },
    };
    let is_default = match &config.default_profile {
        Some(d) => same_reference(d, reference),
        None => false,
    };
    Ok(ProfileSnapshot { profile, is_default })
}

} // verus!
