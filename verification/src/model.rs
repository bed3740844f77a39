//! Provider-neutral identifiers and canonical resource references.
use crate::error::{AppError, AppErrorView, ErrorCode};
use crate::text::{
    byte_len, chars_of, contains_control, decimal_digits, has_control, has_surrounding_whitespace,
    is_ascii_alphanumeric, push_decimal, push_str, str_eq, surrounded_by_whitespace, utf8_len,
};
use vstd::prelude::*;

verus! {

broadcast use vstd::string::group_string_axioms;

/// Why `value` is not an acceptable identifier component, if it is not.
pub open spec fn component_error(value: Seq<char>, label: Seq<char>, max_len: nat) -> Option<
    AppErrorView,
> {
    if value.len() == 0 {
        Some(
            AppErrorView {
                code: ErrorCode::InvalidInput,
                message: label + " cannot be empty"@,
                hint: None,
            },
        )
    } else if utf8_len(value) > max_len {
        Some(
            AppErrorView {
                code: ErrorCode::InvalidInput,
                message: label + " is longer than "@ + decimal_digits(max_len) + " bytes"@,
                hint: None,
            },
        )
    } else if has_surrounding_whitespace(value) || has_control(value) {
        Some(
            AppErrorView {
                code: ErrorCode::InvalidInput,
                message: label + " contains surrounding whitespace or control characters"@,
                hint: None,
            },
        )
    } else {
        None
    }
}

/// Reject empty, oversized, padded, or control-bearing identifier text.
pub fn validate_component(value: &str, label: &str, max_len: usize) -> (r: Result<(), AppError>)
    ensures
        match component_error(value@, label@, max_len as nat) {
            None => r is Ok,
            Some(e) => r matches Err(err) && err@ == e,
        },
{
    if value.is_empty() {
        let mut message = label.to_owned();
        push_str(&mut message, " cannot be empty");
        return Err(AppError::new(ErrorCode::InvalidInput, message.as_str()));
    }
    if byte_len(value) > max_len {
        let mut message = label.to_owned();
        push_str(&mut message, " is longer than ");
        push_decimal(&mut message, max_len as u64);
        push_str(&mut message, " bytes");
        return Err(AppError::new(ErrorCode::InvalidInput, message.as_str()));
    }
    if surrounded_by_whitespace(value) || contains_control(value) {
        let mut message = label.to_owned();
        push_str(&mut message, " contains surrounding whitespace or control characters");
        return Err(AppError::new(ErrorCode::InvalidInput, message.as_str()));
    }
    Ok(())
}

/// Every character is allowed by `allowed`.
pub open spec fn all_chars(s: Seq<char>, allowed: spec_fn(char) -> bool) -> bool {
    forall|i: int| 0 <= i < s.len() ==> #[trigger] allowed(s[i])
}

pub open spec fn provider_id_char(c: char) -> bool {
    ('a' <= c && c <= 'z') || ('0' <= c && c <= '9') || c == '-'
}

pub open spec fn profile_name_char(c: char) -> bool {
    is_ascii_alphanumeric(c) || c == '-' || c == '_'
}

/// A lowercase ASCII slug of at most 64 bytes.
pub open spec fn valid_provider_id(s: Seq<char>) -> bool {
    component_error(s, "provider id"@, 64) is None && all_chars(s, |c: char| provider_id_char(c))
}

/// ASCII letters, digits, hyphens and underscores, at most 64 bytes.
pub open spec fn valid_profile_name(s: Seq<char>) -> bool {
    component_error(s, "profile name"@, 64) is None && all_chars(
        s,
        |c: char| profile_name_char(c),
    )
}

/// Any non-empty, unpadded, control-free text of at most 512 bytes.
pub open spec fn valid_opaque_id(s: Seq<char>) -> bool {
    component_error(s, "provider identifier"@, 512) is None
}

pub open spec fn provider_id_error(s: Seq<char>) -> AppErrorView {
    match component_error(s, "provider id"@, 64) {
        Some(e) => e,
        None => AppErrorView {
            code: ErrorCode::InvalidInput,
            message: "provider id must contain only lowercase ASCII letters, digits, and hyphens"@,
            hint: None,
        },
    }
}

pub open spec fn profile_name_error(s: Seq<char>) -> AppErrorView {
    match component_error(s, "profile name"@, 64) {
        Some(e) => e,
        None => AppErrorView {
            code: ErrorCode::InvalidInput,
            message: "profile name must contain only ASCII letters, digits, hyphens, and underscores"@,
            hint: None,
        },
    }
}

pub open spec fn opaque_id_error(s: Seq<char>) -> AppErrorView {
    component_error(s, "provider identifier"@, 512).unwrap()
}

fn all_chars_satisfy_provider(value: &str) -> (r: bool)
    ensures
        r == all_chars(value@, |c: char| provider_id_char(c)),
{
    let chars = chars_of(value);
    let mut i: usize = 0;
    while i < chars.len()
        invariant
            i <= chars@.len(),
            chars@ == value@,
            forall|j: int| 0 <= j < i ==> provider_id_char(#[trigger] chars@[j]),
        decreases chars@.len() - i,
    {
        let c = chars[i];
        if !(('a' <= c && c <= 'z') || ('0' <= c && c <= '9') || c == '-') {
            assert(!(|c: char| provider_id_char(c))(value@[i as int]));
            return false;
        }
        i = i + 1;
    }
    true
}

fn all_chars_satisfy_profile(value: &str) -> (r: bool)
    ensures
        r == all_chars(value@, |c: char| profile_name_char(c)),
{
    let chars = chars_of(value);
    let mut i: usize = 0;
    while i < chars.len()
        invariant
            i <= chars@.len(),
            chars@ == value@,
            forall|j: int| 0 <= j < i ==> profile_name_char(#[trigger] chars@[j]),
        decreases chars@.len() - i,
    {
        let c = chars[i];
        if !(('a' <= c && c <= 'z') || ('A' <= c && c <= 'Z') || ('0' <= c && c <= '9') || c
            == '-' || c == '_') {
            assert(!(|c: char| profile_name_char(c))(value@[i as int]));
            return false;
        }
        i = i + 1;
    }
    true
}

/// Stable slug identifying a compiled provider adapter.
#[derive(Debug, PartialEq, Eq, Hash)]
pub struct ProviderId(String);

impl View for ProviderId {
    type V = Seq<char>;

    closed spec fn view(&self) -> Seq<char> {
        self.0@
    }
}

impl ProviderId {
    #[verifier::type_invariant]
    pub open spec fn inv(self) -> bool {
        valid_provider_id(self@)
    }

    pub fn new(value: &str) -> (r: Result<ProviderId, AppError>)
        ensures
            r is Ok <==> valid_provider_id(value@),
            r matches Ok(id) ==> id@ == value@,
            r matches Err(e) ==> e@ == provider_id_error(value@),
    {
        validate_component(value, "provider id", 64)?;
        if !all_chars_satisfy_provider(value) {
            return Err(
                AppError::new(
                    ErrorCode::InvalidInput,
                    "provider id must contain only lowercase ASCII letters, digits, and hyphens",
                ),
            );
        }
        Ok(ProviderId(value.to_owned()))
    }

    pub fn as_str(&self) -> (r: &str)
        ensures
            r@ == self@,
            valid_provider_id(r@),
    {
        proof {
            use_type_invariant(self);
        }
        self.0.as_str()
    }
}

impl Clone for ProviderId {
    fn clone(&self) -> (r: Self)
        ensures
            r == *self,
    {
        proof {
            use_type_invariant(self);
        }
        ProviderId(self.0.clone())
    }
}

/// User-chosen local name for one provider account or company.
#[derive(Debug, PartialEq, Eq, Hash)]
pub struct ProfileName(String);

impl View for ProfileName {
    type V = Seq<char>;

    closed spec fn view(&self) -> Seq<char> {
        self.0@
    }
}

impl ProfileName {
    #[verifier::type_invariant]
    pub open spec fn inv(self) -> bool {
        valid_profile_name(self@)
    }

    pub fn new(value: &str) -> (r: Result<ProfileName, AppError>)
        ensures
            r is Ok <==> valid_profile_name(value@),
            r matches Ok(name) ==> name@ == value@,
            r matches Err(e) ==> e@ == profile_name_error(value@),
    {
        validate_component(value, "profile name", 64)?;
        if !all_chars_satisfy_profile(value) {
            return Err(
                AppError::new(
                    ErrorCode::InvalidInput,
                    "profile name must contain only ASCII letters, digits, hyphens, and underscores",
                ),
            );
        }
        Ok(ProfileName(value.to_owned()))
    }

    pub fn as_str(&self) -> (r: &str)
        ensures
            r@ == self@,
            valid_profile_name(r@),
    {
        proof {
            use_type_invariant(self);
        }
        self.0.as_str()
    }
}

impl Clone for ProfileName {
    fn clone(&self) -> (r: Self)
        ensures
            r == *self,
    {
        proof {
            use_type_invariant(self);
        }
        ProfileName(self.0.clone())
    }
}

/// Opaque identifier returned by a provider.
#[derive(Debug, PartialEq, Eq, Hash)]
pub struct OpaqueId(String);

impl View for OpaqueId {
    type V = Seq<char>;

    closed spec fn view(&self) -> Seq<char> {
        self.0@
    }
}

impl OpaqueId {
    #[verifier::type_invariant]
    pub open spec fn inv(self) -> bool {
        valid_opaque_id(self@)
    }

    pub fn new(value: &str) -> (r: Result<OpaqueId, AppError>)
        ensures
            r is Ok <==> valid_opaque_id(value@),
            r matches Ok(id) ==> id@ == value@,
            r matches Err(e) ==> e@ == opaque_id_error(value@),
    {
        validate_component(value, "provider identifier", 512)?;
        Ok(OpaqueId(value.to_owned()))
    }

    pub fn as_str(&self) -> (r: &str)
        ensures
            r@ == self@,
            valid_opaque_id(r@),
    {
        proof {
            use_type_invariant(self);
        }
        self.0.as_str()
    }

    /// Whether the identifier is exactly `text`.
    pub fn is(&self, text: &str) -> (r: bool)
        ensures
            r == (self@ == text@),
    {
        str_eq(self.0.as_str(), text)
    }

    /// Whether two identifiers are equal.
    pub fn same(&self, other: &OpaqueId) -> (r: bool)
        ensures
            r == (self@ == other@),
    {
        str_eq(self.0.as_str(), other.0.as_str())
    }
}

impl Clone for OpaqueId {
    fn clone(&self) -> (r: Self)
        ensures
            r == *self,
    {
        proof {
            use_type_invariant(self);
        }
        OpaqueId(self.0.clone())
    }
}

fn str_eq_owned(a: &String, b: &String) -> (r: bool)
    ensures
        r == (a@ == b@),
{
    str_eq(a.as_str(), b.as_str())
}

impl ProviderId {
    /// Whether two provider ids are equal.
    pub fn same(&self, other: &ProviderId) -> (r: bool)
        ensures
            r == (self@ == other@),
    {
        str_eq_owned(&self.0, &other.0)
    }
}

impl ProfileName {
    /// Whether two profile names are equal.
    pub fn same(&self, other: &ProfileName) -> (r: bool)
        ensures
            r == (self@ == other@),
    {
        str_eq_owned(&self.0, &other.0)
    }
}

/// One configured account for a provider.
#[derive(Debug, PartialEq, Eq, Hash)]
pub struct ProviderProfileRef {
    pub provider: ProviderId,
    pub profile: ProfileName,
}

impl Clone for ProviderProfileRef {
    fn clone(&self) -> (r: Self)
        ensures
            r == *self,
    {
        ProviderProfileRef { provider: self.provider.clone(), profile: self.profile.clone() }
    }
}

impl ProviderProfileRef {
    pub fn try_new(provider: &str, profile: &str) -> (r: Result<ProviderProfileRef, AppError>)
        ensures
            r is Ok <==> valid_provider_id(provider@) && valid_profile_name(profile@),
            r matches Ok(v) ==> v.provider@ == provider@ && v.profile@ == profile@,
            r matches Err(e) ==> e@ == (if !valid_provider_id(provider@) {
                provider_id_error(provider@)
            } else {
                profile_name_error(profile@)
            }),
    {
        Ok(ProviderProfileRef { provider: ProviderId::new(provider)?, profile: ProfileName::new(profile)? })
    }

    /// Whether two references name the same provider profile.
    pub fn same(&self, other: &ProviderProfileRef) -> (r: bool)
        ensures
            r == (self.provider@ == other.provider@ && self.profile@ == other.profile@),
    {
        self.provider.same(&other.provider) && self.profile.same(&other.profile)
    }
}

/// Canonical reference to a provider site.
#[derive(Debug, PartialEq, Eq, Hash)]
pub struct SiteRef {
    pub provider: ProviderId,
    pub profile: ProfileName,
    pub site_id: OpaqueId,
}

impl Clone for SiteRef {
    fn clone(&self) -> (r: Self)
        ensures
            r == *self,
    {
        SiteRef {
            provider: self.provider.clone(),
            profile: self.profile.clone(),
            site_id: self.site_id.clone(),
        }
    }
}

impl SiteRef {
    pub fn try_new(provider: &str, profile: &str, site_id: &str) -> (r: Result<SiteRef, AppError>)
        ensures
            r is Ok <==> valid_provider_id(provider@) && valid_profile_name(profile@)
                && valid_opaque_id(site_id@),
            r matches Ok(v) ==> v.provider@ == provider@ && v.profile@ == profile@ && v.site_id@
                == site_id@,
            r matches Err(e) ==> e@ == (if !valid_provider_id(provider@) {
                provider_id_error(provider@)
            } else if !valid_profile_name(profile@) {
                profile_name_error(profile@)
            } else {
                opaque_id_error(site_id@)
            }),
    {
        Ok(
            SiteRef {
                provider: ProviderId::new(provider)?,
                profile: ProfileName::new(profile)?,
                site_id: OpaqueId::new(site_id)?,
            },
        )
    }

    pub fn profile_ref(&self) -> (r: ProviderProfileRef)
        ensures
            r.provider == self.provider,
            r.profile == self.profile,
    {
        ProviderProfileRef { provider: self.provider.clone(), profile: self.profile.clone() }
    }
}

/// Canonical reference to a provider environment.
#[derive(Debug, PartialEq, Eq, Hash)]
pub struct EnvironmentRef {
    pub provider: ProviderId,
    pub profile: ProfileName,
    pub site_id: OpaqueId,
    pub environment_id: OpaqueId,
}

/// Two references name the same environment.
pub open spec fn same_environment(a: EnvironmentRef, b: EnvironmentRef) -> bool {
    a.provider@ == b.provider@ && a.profile@ == b.profile@ && a.site_id@ == b.site_id@
        && a.environment_id@ == b.environment_id@
}

impl Clone for EnvironmentRef {
    fn clone(&self) -> (r: Self)
        ensures
            r == *self,
    {
        EnvironmentRef {
            provider: self.provider.clone(),
            profile: self.profile.clone(),
            site_id: self.site_id.clone(),
            environment_id: self.environment_id.clone(),
        }
    }
}

impl EnvironmentRef {
    pub fn try_new(provider: &str, profile: &str, site_id: &str, environment_id: &str) -> (r:
        Result<EnvironmentRef, AppError>)
        ensures
            r is Ok <==> valid_provider_id(provider@) && valid_profile_name(profile@)
                && valid_opaque_id(site_id@) && valid_opaque_id(environment_id@),
            r matches Ok(v) ==> v.provider@ == provider@ && v.profile@ == profile@ && v.site_id@
                == site_id@ && v.environment_id@ == environment_id@,
            r matches Err(e) ==> e@ == (if !valid_provider_id(provider@) {
                provider_id_error(provider@)
            } else if !valid_profile_name(profile@) {
                profile_name_error(profile@)
            } else if !valid_opaque_id(site_id@) {
                opaque_id_error(site_id@)
            } else {
                opaque_id_error(environment_id@)
            }),
    {
        Ok(
            EnvironmentRef {
                provider: ProviderId::new(provider)?,
                profile: ProfileName::new(profile)?,
                site_id: OpaqueId::new(site_id)?,
                environment_id: OpaqueId::new(environment_id)?,
            },
        )
    }

    pub fn site_ref(&self) -> (r: SiteRef)
        ensures
            r.provider == self.provider,
            r.profile == self.profile,
            r.site_id == self.site_id,
    {
        SiteRef {
            provider: self.provider.clone(),
            profile: self.profile.clone(),
            site_id: self.site_id.clone(),
        }
    }

    /// Whether two references name the same environment.
    pub fn same(&self, other: &EnvironmentRef) -> (r: bool)
        ensures
            r == (self.provider@ == other.provider@ && self.profile@ == other.profile@
                && self.site_id@ == other.site_id@ && self.environment_id@
                == other.environment_id@),
    {
        self.provider.same(&other.provider) && self.profile.same(&other.profile)
            && self.site_id.same(&other.site_id) && self.environment_id.same(
            &other.environment_id,
        )
    }
}

/// Canonical reference to an export or other downloadable artifact.
#[derive(Debug, Clone, PartialEq, Eq, Hash)]
pub struct ArtifactRef {
    pub environment: EnvironmentRef,
    pub artifact_id: OpaqueId,
}

/// Provider-neutral environment classification; provider terminology is kept separately.
#[derive(Debug, Clone, Copy, PartialEq, Eq, Hash, Structural)]
#[non_exhaustive]
pub enum EnvironmentKind {
    Production,
    Staging,
    Development,
    Other,
}

/// Security classification used by policy and user confirmation layers.
#[derive(Debug, Clone, Copy, PartialEq, Eq, Hash, Structural)]
#[non_exhaustive]
pub enum ActionClass {
    ReadOnly,
    LocalWrite,
    RemoteWrite,
    Destructive,
    ArbitraryCode,
}

} // verus!
