//! Kinsta adapter logic: response validation, error mapping, catalog and inventory
//! normalization, and the inventory paging state machine. HTTP transport stays with the caller;
//! the wire values here are plain copies of the documented response fields.
use crate::error::{hinted_error, plain_error, AppError, AppErrorView, ErrorCode};
use crate::model::{
    valid_opaque_id, EnvironmentKind, EnvironmentRef, OpaqueId, ProviderId, ProviderProfileRef,
    SiteRef,
};
use crate::provider::{
    clone_optional, ssh_target_error, Capability, CatalogSite, CatalogSnapshot,
    EnvironmentSummary, ProviderDescriptor, SiteLabel, SiteSummary, SshTarget,
    WordPressComponent, WordPressComponentInstallation, WordPressComponentInventory,
    WordPressComponentKind,
};
use crate::order::{key_less2, key_less3, reversed, same_order_per_key, sort_by_key, sorted_by_key, SortKey};
use crate::text::{
    ascii_lower_seq, byte_len, chars_of, contains_control, eq_ignore_ascii_case, has_control,
    has_surrounding_whitespace, is_ascii_digit, str_eq, surrounded_by_whitespace, utf8_len,
};
use vstd::prelude::*;

verus! {

broadcast use vstd::string::group_string_axioms;

/// Largest accepted HTTP response body.
pub const MAX_HTTP_RESPONSE_BODY_BYTES: usize = 16777216;

/// Items requested per inventory page.
pub const INVENTORY_PAGE_SIZE: u64 = 100;

/// Largest accepted inventory.
pub const MAX_INVENTORY_ITEMS: u64 = 100000;

/// Most inventory pages fetched for one request.
pub const MAX_INVENTORY_PAGES: u64 = 1000;

/// Largest accepted total of inventory response bodies.
pub const MAX_INVENTORY_BODY_BYTES: usize = 134217728;

/// Capability name of SSH access.
pub const SSH_CAPABILITY: &'static str = "connection.ssh";

// ---------------------------------------------------------------------------------------------
// Errors
// ---------------------------------------------------------------------------------------------
pub open spec fn contract_error(e: AppErrorView) -> bool {
    hinted_error(
        e,
        ErrorCode::ProviderUnavailable,
        "Kinsta returned a response HostBraid could not understand"@,
        "Update HostBraid and try again"@,
    )
}

/// A response that does not follow the documented contract.
pub fn provider_contract_error() -> (r: AppError)
    ensures
        contract_error(r@),
{
    AppError::new(
        ErrorCode::ProviderUnavailable,
        "Kinsta returned a response HostBraid could not understand",
    ).with_hint("Update HostBraid and try again")
}

/// A request that failed before any response arrived.
pub fn transport_error() -> (r: AppError)
    ensures
        hinted_error(
            r@,
            ErrorCode::ProviderUnavailable,
            "Kinsta API request failed"@,
            "Check the network connection and try again"@,
        ),
{
    AppError::new(ErrorCode::ProviderUnavailable, "Kinsta API request failed").with_hint(
        "Check the network connection and try again",
    )
}

/// Inventory paging ran past its overall deadline.
pub fn inventory_timeout_error() -> (r: AppError)
    ensures
        hinted_error(
            r@,
            ErrorCode::ProviderUnavailable,
            "Kinsta inventory request timed out"@,
            "Try the inventory request again"@,
        ),
{
    AppError::new(ErrorCode::ProviderUnavailable, "Kinsta inventory request timed out").with_hint(
        "Try the inventory request again",
    )
}

/// The public error for an unsuccessful HTTP status.
pub open spec fn http_status_error(status: u16) -> AppErrorView {
    if status == 400 {
        AppErrorView {
            code: ErrorCode::InvalidInput,
            message: "Kinsta rejected the API request"@,
            hint: None,
        }
    } else if status == 401 {
        AppErrorView {
            code: ErrorCode::AuthenticationFailed,
            message: "Kinsta API authentication failed"@,
            hint: Some("Update the profile credential with an active Kinsta API key"@),
        }
    } else if status == 403 {
        AppErrorView {
            code: ErrorCode::PolicyDenied,
            message: "Kinsta denied access to the requested resource"@,
            hint: Some("Check the API key role and company access"@),
        }
    } else if status == 404 {
        AppErrorView {
            code: ErrorCode::NotFound,
            message: "Kinsta resource was not found or is not accessible"@,
            hint: None,
        }
    } else if status == 429 {
        AppErrorView {
            code: ErrorCode::ProviderUnavailable,
            message: "Kinsta API rate limit was reached"@,
            hint: Some("Wait before retrying the request"@),
        }
    } else if 500 <= status && status <= 599 {
        AppErrorView {
            code: ErrorCode::ProviderUnavailable,
            message: "Kinsta API is temporarily unavailable"@,
            hint: None,
        }
    } else {
        AppErrorView {
            code: ErrorCode::ProviderUnavailable,
            message: "Kinsta API returned an unexpected status"@,
            hint: None,
        }
    }
}

/// Map an unsuccessful HTTP status to a stable, body-free public error.
pub fn map_http_status(status: u16) -> (r: AppError)
    ensures
        r@ == http_status_error(status),
{
    if status == 400 {
        AppError::new(ErrorCode::InvalidInput, "Kinsta rejected the API request")
    } else if status == 401 {
        AppError::new(ErrorCode::AuthenticationFailed, "Kinsta API authentication failed").with_hint(
            "Update the profile credential with an active Kinsta API key",
        )
    } else if status == 403 {
        AppError::new(
            ErrorCode::PolicyDenied,
            "Kinsta denied access to the requested resource",
        ).with_hint("Check the API key role and company access")
    } else if status == 404 {
        AppError::new(ErrorCode::NotFound, "Kinsta resource was not found or is not accessible")
    } else if status == 429 {
        AppError::new(ErrorCode::ProviderUnavailable, "Kinsta API rate limit was reached").with_hint(
            "Wait before retrying the request",
        )
    } else if 500 <= status && status <= 599 {
        AppError::new(ErrorCode::ProviderUnavailable, "Kinsta API is temporarily unavailable")
    } else {
        AppError::new(ErrorCode::ProviderUnavailable, "Kinsta API returned an unexpected status")
    }
}

// ---------------------------------------------------------------------------------------------
// Tokens and response bodies
// ---------------------------------------------------------------------------------------------
/// A token that can be sent: non-empty, at most 16 KiB, and free of control characters.
pub open spec fn valid_api_token(value: Seq<char>) -> bool {
    value.len() > 0 && utf8_len(value) <= 16384 && !has_control(value)
}

/// Check a Kinsta API token before it is stored or sent.
pub fn validate_api_token(value: &str) -> (r: Result<(), AppError>)
    ensures
        r is Ok <==> valid_api_token(value@),
        r matches Err(e) ==> plain_error(
            e@,
            ErrorCode::InvalidInput,
            "Kinsta API token is empty or invalid"@,
        ),
{
    if value.is_empty() || byte_len(value) > 16384 || contains_control(value) {
        return Err(AppError::new(ErrorCode::InvalidInput, "Kinsta API token is empty or invalid"));
    }
    Ok(())
}

/// Reject a response whose declared length already exceeds the body limit.
pub fn check_declared_length(content_length: Option<u64>, max_body_bytes: usize) -> (r: Result<
    (),
    AppError,
>)
    ensures
        r is Ok <==> !(content_length matches Some(n) && n > max_body_bytes),
        r matches Err(e) ==> contract_error(e@),
{
    if let Some(length) = content_length {
        if length > max_body_bytes as u64 {
            return Err(provider_contract_error());
        }
    }
    Ok(())
}

/// Account for one more body chunk, failing once the body would exceed the limit.
pub fn grow_body_len(current: usize, chunk_len: usize, max_body_bytes: usize) -> (r: Result<
    usize,
    AppError,
>)
    ensures
        r is Ok <==> current + chunk_len <= max_body_bytes,
        r matches Ok(n) ==> n == current + chunk_len,
        r matches Err(e) ==> contract_error(e@),
{
    if current > max_body_bytes || chunk_len > max_body_bytes - current {
        return Err(provider_contract_error());
    }
    Ok(current + chunk_len)
}

// ---------------------------------------------------------------------------------------------
// Key validation
// ---------------------------------------------------------------------------------------------
/// The documented fields of Kinsta's key validation response.
#[derive(Debug)]
pub struct ValidateResponse {
    pub name: String,
    pub expires_at: Option<String>,
    pub company: String,
    pub status: String,
}

/// Secret-free API-key metadata returned by Kinsta's validation endpoint.
#[derive(Debug, PartialEq, Eq)]
pub struct ApiKeyValidation {
    pub key_name: String,
    pub expires_at: Option<String>,
    pub company_id: OpaqueId,
    pub status: String,
}

/// An expiry timestamp that is short, unpadded and control-free.
pub open spec fn acceptable_expiry(value: Seq<char>) -> bool {
    utf8_len(value) <= 128 && !has_surrounding_whitespace(value) && !has_control(value)
}

/// Turn a key validation response into key metadata: the key must be active, its expiry sane and
/// its company a valid identifier.
pub fn validate_api_key_response(response: ValidateResponse) -> (r: Result<ApiKeyValidation, AppError>)
    ensures
        r is Ok <==> (ascii_lower_seq(response.status@) == "active"@ && !(response.expires_at matches Some(
            x,
        ) && !acceptable_expiry(x@)) && valid_opaque_id(response.company@)),
        r matches Ok(v) ==> v.key_name == response.name && v.expires_at == response.expires_at
            && v.company_id@ == response.company@ && v.status == response.status,
        r matches Err(e) ==> if ascii_lower_seq(response.status@) != "active"@ {
            hinted_error(
                e@,
                ErrorCode::AuthenticationFailed,
                "Kinsta API token is not active"@,
                "Create or activate a Kinsta API key and update the profile credential"@,
            )
        } else {
            contract_error(e@)
        },
{
    proof {
        reveal_strlit("active");
        assert(ascii_lower_seq("active"@) =~= "active"@);
    }
    if !eq_ignore_ascii_case(response.status.as_str(), "active") {
        return Err(
            AppError::new(ErrorCode::AuthenticationFailed, "Kinsta API token is not active").with_hint(
                "Create or activate a Kinsta API key and update the profile credential",
            ),
        );
    }
    if let Some(value) = &response.expires_at {
        if byte_len(value.as_str()) > 128 || surrounded_by_whitespace(value.as_str())
            || contains_control(value.as_str()) {
            return Err(provider_contract_error());
        }
    }
    let company_id = match OpaqueId::new(response.company.as_str()) {
        Ok(id) => id,
        Err(_) => {
            return Err(provider_contract_error());
        },
    };
    Ok(
        ApiKeyValidation {
            key_name: response.name,
            expires_at: response.expires_at,
            company_id,
            status: response.status,
        },
    )
}

// ---------------------------------------------------------------------------------------------
// Decimal ports
// ---------------------------------------------------------------------------------------------
/// Value of a run of decimal digits.
pub open spec fn digits_value(s: Seq<char>) -> int
    decreases s.len(),
{
    if s.len() == 0 {
        0
    } else {
        digits_value(s.drop_last()) * 10 + ((s.last() as u32) - ('0' as u32))
    }
}

pub open spec fn all_digits(s: Seq<char>) -> bool {
    forall|i: int| 0 <= i < s.len() ==> #[trigger] is_ascii_digit(s[i])
}

/// What `str::parse::<u16>` accepts: an optional `+`, then one or more decimal digits whose
/// value fits in 16 bits.
pub open spec fn parsed_u16(s: Seq<char>) -> Option<u16> {
    let d = if s.len() > 0 && s[0] == '+' {
        s.drop_first()
    } else {
        s
    };
    if d.len() > 0 && all_digits(d) && digits_value(d) <= 65535 {
        Some(digits_value(d) as u16)
    } else {
        None
    }
}

proof fn lemma_digits_grow(s: Seq<char>, i: int, j: int)
    requires
        all_digits(s),
        0 <= i <= j <= s.len(),
    ensures
        digits_value(s.take(i)) <= digits_value(s.take(j)),
        digits_value(s.take(i)) >= 0,
    decreases j - i,
{
    if i < j {
        lemma_digits_grow(s, i, j - 1);
        assert(s.take(j).drop_last() =~= s.take(j - 1));
        assert(is_ascii_digit(s[j - 1]));
    } else {
        lemma_digits_nonneg(s, i);
    }
}

proof fn lemma_digits_nonneg(s: Seq<char>, i: int)
    requires
        all_digits(s),
        0 <= i <= s.len(),
    ensures
        digits_value(s.take(i)) >= 0,
    decreases i,
{
    if i > 0 {
        lemma_digits_nonneg(s, i - 1);
        assert(s.take(i).drop_last() =~= s.take(i - 1));
        assert(is_ascii_digit(s[i - 1]));
    }
}

/// Parse a decimal port number as `str::parse::<u16>` does.
pub fn parse_u16(value: &str) -> (r: Option<u16>)
    ensures
        r == parsed_u16(value@),
{
    let chars = chars_of(value);
    let start: usize = if chars.len() > 0 && chars[0] == '+' {
        1
    } else {
        0
    };
    let ghost d = if value@.len() > 0 && value@[0] == '+' {
        value@.drop_first()
    } else {
        value@
    };
    assert(d =~= chars@.skip(start as int));
    if start >= chars.len() {
        return None;
    }
    let mut acc: u32 = 0;
    let mut i: usize = start;
    while i < chars.len()
        invariant
            chars@ == value@,
            start <= i <= chars@.len(),
            d == chars@.skip(start as int),
            d == (if value@.len() > 0 && value@[0] == '+' {
                value@.drop_first()
            } else {
                value@
            }),
            d.len() > 0,
            all_digits(d.take(i - start)),
            acc == digits_value(d.take(i - start)),
            acc <= 65535,
        decreases chars@.len() - i,
    {
        let c = chars[i];
        assert(d[i - start] == chars@[i as int]);
        if !('0' <= c && c <= '9') {
            assert(!is_ascii_digit(d[i - start]));
            assert(!all_digits(d));
            return None;
        }
        let digit = (c as u32) - ('0' as u32);
        let next = acc * 10 + digit;
        assert(d.take(i - start + 1).drop_last() =~= d.take(i - start));
        assert(all_digits(d.take(i - start + 1)));
        if next > 65535 {
            proof {
                if all_digits(d) {
                    lemma_digits_grow(d, i - start + 1, d.len() as int);
                    assert(d.take(d.len() as int) =~= d);
                    assert(digits_value(d) > 65535);
                }
            }
            return None;
        }
        acc = next;
        i = i + 1;
    }
    assert(d.take(i - start) =~= d);
    Some(acc as u16)
}

// ---------------------------------------------------------------------------------------------
// SSH coordinates
// ---------------------------------------------------------------------------------------------
/// The documented fields of Kinsta's SSH configuration response.
#[derive(Debug)]
pub struct SshConfigResponse {
    pub site_id: String,
    pub environment_id: String,
    pub port: String,
    pub host: String,
    pub user: String,
}

/// Turn an SSH configuration response into validated coordinates for `environment`. The
/// provider's ready-made shell command is never used.
pub fn ssh_target_from_config(environment: &EnvironmentRef, response: &SshConfigResponse) -> (r:
    Result<SshTarget, AppError>)
    ensures
        r is Ok <==> (response.site_id@ == environment.site_id@ && response.environment_id@
            == environment.environment_id@ && (parsed_u16(response.port@) matches Some(port)
            && ssh_target_error(response.host@, port, response.user@, None) is None)),
        r matches Ok(t) ==> t@.host == response.host@ && Some(t@.port) == parsed_u16(
            response.port@,
        ) && t@.user == response.user@ && t@.working_directory is None,
        r matches Err(e) ==> contract_error(e@),
{
    if !environment.site_id.is(response.site_id.as_str()) || !environment.environment_id.is(
        response.environment_id.as_str(),
    ) {
        return Err(provider_contract_error());
    }
    let port = match parse_u16(response.port.as_str()) {
        Some(port) => port,
        None => {
            return Err(provider_contract_error());
        },
    };
    match SshTarget::try_new(response.host.as_str(), port, response.user.as_str(), None) {
        Ok(target) => Ok(target),
        Err(_) => Err(provider_contract_error()),
    }
}

/// SSH must be enabled before connection details are requested.
pub fn require_ssh_enabled(enabled: bool) -> (r: Result<(), AppError>)
    ensures
        r is Ok <==> enabled,
        r matches Err(e) ==> hinted_error(
            e@,
            ErrorCode::Unavailable,
            "SSH is disabled for this Kinsta environment"@,
            "Enable SSH in MyKinsta before connecting"@,
        ),
{
    if enabled {
        Ok(())
    } else {
        Err(
            AppError::new(ErrorCode::Unavailable, "SSH is disabled for this Kinsta environment").with_hint(
                "Enable SSH in MyKinsta before connecting",
            ),
        )
    }
}

/// The capabilities of an environment given its current SSH status.
pub fn ssh_capabilities(ssh_enabled: bool) -> (r: Vec<Capability>)
    ensures
        r@.len() == 1,
        r@[0].name@ == SSH_CAPABILITY@,
        r@[0].version == 1,
        r@[0].supported,
        r@[0].available == ssh_enabled,
        ssh_enabled ==> r@[0].reason is None && r@[0].remediation is None,
        !ssh_enabled ==> (r@[0].reason matches Some(x) && x@ == "ssh_disabled"@),
        !ssh_enabled ==> (r@[0].remediation matches Some(x) && x@ == "Enable SSH in MyKinsta"@),
{
    let capability = if ssh_enabled {
        Capability::available(SSH_CAPABILITY, 1)
    } else {
        Capability::unavailable(
            SSH_CAPABILITY,
            1,
            "ssh_disabled",
            Some("Enable SSH in MyKinsta".to_owned()),
        )
    };
    let mut out = Vec::new();
    out.push(capability);
    out
}

// ---------------------------------------------------------------------------------------------
// Catalog
// ---------------------------------------------------------------------------------------------
/// A site label as Kinsta returns it.
#[derive(Debug)]
pub struct WireLabel {
    pub id: String,
    pub name: String,
}

/// An environment as Kinsta returns it.
#[derive(Debug)]
pub struct WireEnvironment {
    pub id: String,
    pub name: String,
    pub display_name: String,
    pub primary_domain: Option<String>,
}

/// A site with its labels and environments as Kinsta returns it.
#[derive(Debug)]
pub struct WireSite {
    pub id: String,
    pub display_name: String,
    pub labels: Vec<WireLabel>,
    pub environments: Vec<WireEnvironment>,
}

/// Provider environment names mapped onto neutral kinds, ignoring ASCII case.
pub open spec fn normalized_kind(value: Seq<char>) -> EnvironmentKind {
    let v = ascii_lower_seq(value);
    if v == "live"@ || v == "prod"@ || v == "production"@ {
        EnvironmentKind::Production
    } else if v == "stage"@ || v == "staging"@ {
        EnvironmentKind::Staging
    } else if v == "dev"@ || v == "development"@ {
        EnvironmentKind::Development
    } else {
        EnvironmentKind::Other
    }
}

fn is_name(value: &str, name: &str) -> (r: bool)
    requires
        ascii_lower_seq(name@) == name@,
    ensures
        r == (ascii_lower_seq(value@) == name@),
{
    eq_ignore_ascii_case(value, name)
}

/// Classify a provider environment name.
pub fn normalize_environment_kind(value: &str) -> (r: EnvironmentKind)
    ensures
        r == normalized_kind(value@),
{
    proof {
        reveal_strlit("live");
        reveal_strlit("prod");
        reveal_strlit("production");
        reveal_strlit("stage");
        reveal_strlit("staging");
        reveal_strlit("dev");
        reveal_strlit("development");
        assert(ascii_lower_seq("live"@) =~= "live"@);
        assert(ascii_lower_seq("prod"@) =~= "prod"@);
        assert(ascii_lower_seq("production"@) =~= "production"@);
        assert(ascii_lower_seq("stage"@) =~= "stage"@);
        assert(ascii_lower_seq("staging"@) =~= "staging"@);
        assert(ascii_lower_seq("dev"@) =~= "dev"@);
        assert(ascii_lower_seq("development"@) =~= "development"@);
    }
    if is_name(value, "live") || is_name(value, "prod") || is_name(value, "production") {
        EnvironmentKind::Production
    } else if is_name(value, "stage") || is_name(value, "staging") {
        EnvironmentKind::Staging
    } else if is_name(value, "dev") || is_name(value, "development") {
        EnvironmentKind::Development
    } else {
        EnvironmentKind::Other
    }
}

/// Production first, then staging, development and other environments.
pub open spec fn kind_rank(kind: EnvironmentKind) -> u8 {
    match kind {
        EnvironmentKind::Production => 0,
        EnvironmentKind::Staging => 1,
        EnvironmentKind::Development => 2,
        EnvironmentKind::Other => 3,
    }
}

pub fn environment_kind_rank(kind: EnvironmentKind) -> (r: u8)
    ensures
        r == kind_rank(kind),
{
    match kind {
        EnvironmentKind::Production => 0,
        EnvironmentKind::Staging => 1,
        EnvironmentKind::Development => 2,
        EnvironmentKind::Other => 3,
    }
}

/// The rank as a one-digit sort key component.
pub open spec fn rank_key(kind: EnvironmentKind) -> Seq<char> {
    seq![(('0' as u32) + kind_rank(kind)) as char]
}

fn rank_label(kind: EnvironmentKind) -> (r: &'static str)
    ensures
        r@ == rank_key(kind),
{
    proof {
        reveal_strlit("0");
        reveal_strlit("1");
        reveal_strlit("2");
        reveal_strlit("3");
    }
    match kind {
        EnvironmentKind::Production => "0",
        EnvironmentKind::Staging => "1",
        EnvironmentKind::Development => "2",
        EnvironmentKind::Other => "3",
    }
}

impl SortKey for EnvironmentSummary {
    open spec fn sort_key(&self) -> Seq<Seq<char>> {
        seq![rank_key(self.kind), self.display_name@, self.reference.environment_id@]
    }

    fn key_less(&self, other: &Self) -> (r: bool) {
        key_less3(
            rank_label(self.kind),
            self.display_name.as_str(),
            self.reference.environment_id.as_str(),
            rank_label(other.kind),
            other.display_name.as_str(),
            other.reference.environment_id.as_str(),
        )
    }
}

impl SortKey for SiteLabel {
    open spec fn sort_key(&self) -> Seq<Seq<char>> {
        seq![self.name@, self.id@]
    }

    fn key_less(&self, other: &Self) -> (r: bool) {
        key_less2(self.name.as_str(), self.id.as_str(), other.name.as_str(), other.id.as_str())
    }
}

impl SortKey for CatalogSite {
    open spec fn sort_key(&self) -> Seq<Seq<char>> {
        seq![self.site.display_name@, self.site.reference.site_id@]
    }

    fn key_less(&self, other: &Self) -> (r: bool) {
        key_less2(
            self.site.display_name.as_str(),
            self.site.reference.site_id.as_str(),
            other.site.display_name.as_str(),
            other.site.reference.site_id.as_str(),
        )
    }
}

/// The environment's reference lies under the profile and site, with the wire values kept.
pub open spec fn environment_mapped(
    profile: ProviderProfileRef,
    site_id: Seq<char>,
    w: WireEnvironment,
    e: EnvironmentSummary,
) -> bool {
    &&& e.reference.provider@ == profile.provider@
    &&& e.reference.profile@ == profile.profile@
    &&& e.reference.site_id@ == site_id
    &&& e.reference.environment_id@ == w.id@
    &&& e.display_name == w.display_name
    &&& e.kind == normalized_kind(w.name@)
    &&& e.provider_kind == Some(w.name)
    &&& e.primary_domain == w.primary_domain
}

/// Map one wire environment under a profile and site.
pub fn map_environment(profile: &ProviderProfileRef, site_id: &str, environment: WireEnvironment) -> (r:
    Result<EnvironmentSummary, AppError>)
    ensures
        r is Ok <==> valid_opaque_id(site_id@) && valid_opaque_id(environment.id@),
        r matches Ok(e) ==> environment_mapped(*profile, site_id@, environment, e),
        r matches Err(e) ==> contract_error(e@),
{
    let reference = match EnvironmentRef::try_new(
        profile.provider.as_str(),
        profile.profile.as_str(),
        site_id,
        environment.id.as_str(),
    ) {
        Ok(reference) => reference,
        Err(_) => {
            return Err(provider_contract_error());
        },
    };
    let kind = normalize_environment_kind(environment.name.as_str());
    Ok(
        EnvironmentSummary {
            reference,
            display_name: environment.display_name,
            kind,
            provider_kind: Some(environment.name),
            primary_domain: environment.primary_domain,
        },
    )
}

/// The primary domain of the first production environment, in catalog order.
pub open spec fn production_domain(environments: Seq<EnvironmentSummary>) -> Option<String>
    decreases environments.len(),
{
    if environments.len() == 0 {
        None
    } else if environments[0].kind == EnvironmentKind::Production {
        environments[0].primary_domain
    } else {
        production_domain(environments.drop_first())
    }
}

fn first_production_domain(environments: &Vec<EnvironmentSummary>) -> (r: Option<String>)
    ensures
        r == production_domain(environments@),
{
    let mut i: usize = 0;
    assert(environments@.skip(0) =~= environments@);
    while i < environments.len()
        invariant
            i <= environments@.len(),
            production_domain(environments@) == production_domain(environments@.skip(i as int)),
        decreases environments@.len() - i,
    {
        assert(environments@.skip(i as int).drop_first() =~= environments@.skip(i + 1));
        if environments[i].kind == EnvironmentKind::Production {
            return clone_optional(&environments[i].primary_domain);
        }
        i = i + 1;
    }
    assert(environments@.skip(i as int).len() == 0);
    None
}

/// A site whose identifiers are all acceptable.
pub open spec fn wire_site_valid(s: WireSite) -> bool {
    &&& valid_opaque_id(s.id@)
    &&& forall|i: int|
        0 <= i < s.environments@.len() ==> valid_opaque_id(#[trigger] s.environments@[i].id@)
    &&& forall|i: int| 0 <= i < s.labels@.len() ==> valid_opaque_id(#[trigger] s.labels@[i].id@)
}

pub open spec fn label_mapped(w: WireLabel, l: SiteLabel) -> bool {
    l.id@ == w.id@ && l.name == w.name
}

/// The catalog site holds the wire site's values: its reference under the profile, its
/// environments and labels mapped and sorted, and the first production domain as its own.
pub open spec fn site_mapped(profile: ProviderProfileRef, w: WireSite, c: CatalogSite) -> bool {
    &&& c.site.reference.provider@ == profile.provider@
    &&& c.site.reference.profile@ == profile.profile@
    &&& c.site.reference.site_id@ == w.id@
    &&& c.site.display_name == w.display_name
    &&& sorted_by_key(c.environments@)
    &&& exists|envs: Seq<EnvironmentSummary>|
        #![trigger envs.to_multiset()]
        envs.len() == w.environments@.len() && (forall|i: int|
            0 <= i < envs.len() ==> environment_mapped(
                profile,
                w.id@,
                #[trigger] w.environments@[i],
                envs[i],
            )) && c.environments@.to_multiset() == envs.to_multiset() && same_order_per_key(
            c.environments@,
            envs,
        )
    &&& c.site.primary_domain == production_domain(c.environments@)
    &&& sorted_by_key(c.site.labels@)
    &&& exists|labels: Seq<SiteLabel>|
        #![trigger labels.to_multiset()]
        labels.len() == w.labels@.len() && (forall|i: int|
            0 <= i < labels.len() ==> label_mapped(#[trigger] w.labels@[i], labels[i]))
            && c.site.labels@.to_multiset() == labels.to_multiset() && same_order_per_key(
            c.site.labels@,
            labels,
        )
}

/// Map one wire site.
pub fn map_site(profile: &ProviderProfileRef, site: WireSite) -> (r: Result<CatalogSite, AppError>)
    ensures
        r is Ok <==> wire_site_valid(site),
        r matches Ok(c) ==> site_mapped(*profile, site, c),
        r matches Err(e) ==> contract_error(e@),
{
    let reference = match SiteRef::try_new(
        profile.provider.as_str(),
        profile.profile.as_str(),
        site.id.as_str(),
    ) {
        Ok(reference) => reference,
        Err(_) => {
            return Err(provider_contract_error());
        },
    };
    let ghost wire_envs = site.environments@;
    let ghost wire_labels = site.labels@;
    let n = site.environments.len();
    let mut rest = reversed(site.environments);
    let mut environments: Vec<EnvironmentSummary> = Vec::new();
    let mut i: usize = 0;
    while i < n
        invariant
            n == wire_envs.len(),
            wire_envs == site.environments@,
            i <= n,
            valid_opaque_id(site.id@),
            rest@.len() == n - i,
            forall|k: int| 0 <= k < n - i ==> #[trigger] rest@[k] == wire_envs[n - 1 - k],
            environments@.len() == i,
            forall|k: int| 0 <= k < i ==> valid_opaque_id(#[trigger] wire_envs[k].id@),
            forall|k: int|
                0 <= k < i ==> environment_mapped(
                    *profile,
                    site.id@,
                    #[trigger] wire_envs[k],
                    environments@[k],
                ),
        decreases n - i,
    {
        let w = rest.pop().unwrap();
        assert(w == wire_envs[i as int]);
        let e = match map_environment(profile, site.id.as_str(), w) {
            Ok(e) => e,
            Err(error) => {
                assert(!valid_opaque_id(site.environments@[i as int].id@));
                return Err(error);
            },
        };
        environments.push(e);
        i = i + 1;
    }
    let ghost mapped_envs = environments@;
    sort_by_key(&mut environments);
    let primary_domain = first_production_domain(&environments);
    let m = site.labels.len();
    let mut rest_labels = reversed(site.labels);
    let mut labels: Vec<SiteLabel> = Vec::new();
    let mut j: usize = 0;
    while j < m
        invariant
            m == wire_labels.len(),
            wire_labels == site.labels@,
            j <= m,
            rest_labels@.len() == m - j,
            forall|k: int| 0 <= k < m - j ==> #[trigger] rest_labels@[k] == wire_labels[m - 1 - k],
            labels@.len() == j,
            forall|k: int| 0 <= k < j ==> valid_opaque_id(#[trigger] wire_labels[k].id@),
            forall|k: int| 0 <= k < j ==> label_mapped(#[trigger] wire_labels[k], labels@[k]),
        decreases m - j,
    {
        let w = rest_labels.pop().unwrap();
        assert(w == wire_labels[j as int]);
        let id = match OpaqueId::new(w.id.as_str()) {
            Ok(id) => id,
            Err(_) => {
                assert(!valid_opaque_id(site.labels@[j as int].id@));
                return Err(provider_contract_error());
            },
        };
        labels.push(SiteLabel { id, name: w.name });
        j = j + 1;
    }
    let ghost mapped_labels = labels@;
    sort_by_key(&mut labels);
    let result = CatalogSite {
        site: SiteSummary { reference, display_name: site.display_name, primary_domain, labels },
        environments,
    };
    proof {
        assert(wire_envs.len() == mapped_envs.len() && (forall|k: int|
            0 <= k < mapped_envs.len() ==> environment_mapped(
                *profile,
                site.id@,
                #[trigger] wire_envs[k],
                mapped_envs[k],
            )) && result.environments@.to_multiset() == mapped_envs.to_multiset()
            && same_order_per_key(result.environments@, mapped_envs));
        assert(wire_labels.len() == mapped_labels.len() && (forall|k: int|
            0 <= k < mapped_labels.len() ==> label_mapped(#[trigger] wire_labels[k], mapped_labels[k]))
            && result.site.labels@.to_multiset() == mapped_labels.to_multiset()
            && same_order_per_key(result.site.labels@, mapped_labels));
    }
    Ok(result)
}

/// Map a catalog response: every site mapped, then sites sorted by name and identifier.
pub fn map_catalog(profile: &ProviderProfileRef, sites: Vec<WireSite>) -> (r: Result<
    CatalogSnapshot,
    AppError,
>)
    ensures
        r is Ok <==> forall|i: int| 0 <= i < sites@.len() ==> wire_site_valid(#[trigger] sites@[i]),
        r matches Ok(snapshot) ==> {
            &&& snapshot.profile == *profile
            &&& sorted_by_key(snapshot.sites@)
            &&& exists|mapped: Seq<CatalogSite>|
                #![trigger mapped.to_multiset()]
                mapped.len() == sites@.len() && (forall|i: int|
                    0 <= i < mapped.len() ==> site_mapped(*profile, #[trigger] sites@[i], mapped[i]))
                    && snapshot.sites@.to_multiset() == mapped.to_multiset() && same_order_per_key(
                    snapshot.sites@,
                    mapped,
                )
        },
        r matches Err(e) ==> contract_error(e@),
{
    let ghost wire = sites@;
    let n = sites.len();
    let mut rest = reversed(sites);
    let mut mapped: Vec<CatalogSite> = Vec::new();
    let mut i: usize = 0;
    while i < n
        invariant
            n == wire.len(),
            wire == sites@,
            i <= n,
            rest@.len() == n - i,
            forall|k: int| 0 <= k < n - i ==> #[trigger] rest@[k] == wire[n - 1 - k],
            mapped@.len() == i,
            forall|k: int| 0 <= k < i ==> wire_site_valid(#[trigger] wire[k]),
            forall|k: int| 0 <= k < i ==> site_mapped(*profile, #[trigger] wire[k], mapped@[k]),
        decreases n - i,
    {
        let w = rest.pop().unwrap();
        assert(w == wire[i as int]);
        let site = match map_site(profile, w) {
            Ok(site) => site,
            Err(error) => {
                assert(!wire_site_valid(sites@[i as int]));
                return Err(error);
            },
        };
        mapped.push(site);
        i = i + 1;
    }
    let ghost unsorted = mapped@;
    sort_by_key(&mut mapped);
    let snapshot = CatalogSnapshot { profile: profile.clone(), sites: mapped };
    proof {
        assert(unsorted.len() == wire.len() && (forall|k: int|
            0 <= k < unsorted.len() ==> site_mapped(*profile, #[trigger] wire[k], unsorted[k]))
            && snapshot.sites@.to_multiset() == unsorted.to_multiset()
            && same_order_per_key(snapshot.sites@, unsorted));
    }
    Ok(snapshot)
}

// ---------------------------------------------------------------------------------------------
// Environment index
// ---------------------------------------------------------------------------------------------
/// Environment references of a catalog, site by site, in catalog order.
pub open spec fn catalog_references(sites: Seq<CatalogSite>) -> Seq<EnvironmentRef>
    decreases sites.len(),
{
    if sites.len() == 0 {
        seq![]
    } else {
        catalog_references(sites.drop_last()) + sites.last().environments@.map_values(
            |e: EnvironmentSummary| e.reference,
        )
    }
}

/// No two references share an environment identifier.
pub open spec fn unique_environment_ids(refs: Seq<EnvironmentRef>) -> bool {
    forall|i: int, j: int|
        0 <= i < j < refs.len() ==> #[trigger] refs[i].environment_id@
            != #[trigger] refs[j].environment_id@
}

/// The first reference with the given environment identifier.
pub open spec fn find_ref(refs: Seq<EnvironmentRef>, id: Seq<char>) -> Option<EnvironmentRef>
    decreases refs.len(),
{
    if refs.len() == 0 {
        None
    } else if refs[0].environment_id@ == id {
        Some(refs[0])
    } else {
        find_ref(refs.drop_first(), id)
    }
}

proof fn lemma_find_ref(refs: Seq<EnvironmentRef>, id: Seq<char>)
    ensures
        find_ref(refs, id) is Some <==> exists|i: int|
            0 <= i < refs.len() && #[trigger] refs[i].environment_id@ == id,
        find_ref(refs, id) matches Some(e) ==> e.environment_id@ == id,
    decreases refs.len(),
{
    if refs.len() > 0 {
        lemma_find_ref(refs.drop_first(), id);
        if refs[0].environment_id@ != id {
            if exists|i: int| 0 <= i < refs.len() && #[trigger] refs[i].environment_id@ == id {
                let i = choose|i: int| 0 <= i < refs.len() && #[trigger] refs[i].environment_id@ == id;
                assert(refs.drop_first()[i - 1].environment_id@ == id);
            }
            if exists|i: int|
                0 <= i < refs.drop_first().len() && #[trigger] refs.drop_first()[i].environment_id@
                    == id {
                let i = choose|i: int|
                    0 <= i < refs.drop_first().len()
                        && #[trigger] refs.drop_first()[i].environment_id@ == id;
                assert(refs[i + 1].environment_id@ == id);
            }
        }
    }
}

proof fn lemma_find_ref_push(refs: Seq<EnvironmentRef>, e: EnvironmentRef, id: Seq<char>)
    requires
        find_ref(refs, id) is Some,
    ensures
        find_ref(refs.push(e), id) == find_ref(refs, id),
    decreases refs.len(),
{
    if refs.len() > 0 && refs[0].environment_id@ != id {
        assert(refs.push(e).drop_first() =~= refs.drop_first().push(e));
        lemma_find_ref_push(refs.drop_first(), e, id);
    }
}

proof fn lemma_catalog_references_prefix(sites: Seq<CatalogSite>, k: int)
    requires
        0 <= k <= sites.len(),
    ensures
        catalog_references(sites.take(k)).len() <= catalog_references(sites).len(),
        catalog_references(sites) == catalog_references(sites.take(k)) + catalog_references(
            sites,
        ).skip(catalog_references(sites.take(k)).len() as int),
    decreases sites.len() - k,
{
    if k < sites.len() {
        lemma_catalog_references_prefix(sites, k + 1);
        assert(sites.take(k + 1).drop_last() =~= sites.take(k));
        let a = catalog_references(sites.take(k));
        let b = catalog_references(sites.take(k + 1));
        let c = catalog_references(sites);
        assert(c =~= a + c.skip(a.len() as int));
    } else {
        assert(sites.take(k) =~= sites);
        assert(catalog_references(sites).skip(catalog_references(sites).len() as int) =~= Seq::<
            EnvironmentRef,
        >::empty());
        assert(catalog_references(sites) + Seq::<EnvironmentRef>::empty() =~= catalog_references(
            sites,
        ));
    }
}

/// Exact environment references of a catalog, looked up by environment identifier.
#[derive(Debug)]
pub struct EnvironmentIndex {
    entries: Vec<EnvironmentRef>,
}

impl View for EnvironmentIndex {
    type V = Seq<EnvironmentRef>;

    closed spec fn view(&self) -> Seq<EnvironmentRef> {
        self.entries@
    }
}

impl EnvironmentIndex {
    #[verifier::type_invariant]
    spec fn unique(self) -> bool {
        unique_environment_ids(self.entries@)
    }

    /// The reference with this environment identifier, if the catalog has one.
    pub fn lookup(&self, environment_id: &str) -> (r: Option<EnvironmentRef>)
        ensures
            r == find_ref(self@, environment_id@),
    {
        let mut i: usize = 0;
        let ghost all = self.entries@;
        assert(all.skip(0) =~= all);
        while i < self.entries.len()
            invariant
                all == self.entries@,
                i <= all.len(),
                find_ref(all, environment_id@) == find_ref(all.skip(i as int), environment_id@),
            decreases all.len() - i,
        {
            assert(all.skip(i as int).drop_first() =~= all.skip(i + 1));
            if self.entries[i].environment_id.is(environment_id) {
                return Some(self.entries[i].clone());
            }
            i = i + 1;
        }
        None
    }
}

/// Index the environments of a catalog. An identifier used twice breaks the provider contract.
pub fn environment_index(snapshot: &CatalogSnapshot) -> (r: Result<EnvironmentIndex, AppError>)
    ensures
        r is Ok <==> unique_environment_ids(catalog_references(snapshot.sites@)),
        r matches Ok(index) ==> index@ == catalog_references(snapshot.sites@),
        r matches Err(e) ==> contract_error(e@),
{
    let ghost sites = snapshot.sites@;
    let mut entries: Vec<EnvironmentRef> = Vec::new();
    let mut i: usize = 0;
    while i < snapshot.sites.len()
        invariant
            sites == snapshot.sites@,
            i <= sites.len(),
            entries@ == catalog_references(sites.take(i as int)),
            unique_environment_ids(entries@),
        decreases sites.len() - i,
    {
        let environments = &snapshot.sites[i].environments;
        let ghost base = entries@;
        let ghost envs = environments@;
        let mut j: usize = 0;
        while j < environments.len()
            invariant
                sites == snapshot.sites@,
                i < sites.len(),
                environments == &sites[i as int].environments,
                envs == environments@,
                base == catalog_references(sites.take(i as int)),
                j <= envs.len(),
                entries@ == base + envs.take(j as int).map_values(
                    |e: EnvironmentSummary| e.reference,
                ),
                unique_environment_ids(entries@),
            decreases envs.len() - j,
        {
            let reference = &environments[j].reference;
            let mut k: usize = 0;
            while k < entries.len()
                invariant
                    sites == snapshot.sites@,
                    i < sites.len(),
                    envs == sites[i as int].environments@,
                    base == catalog_references(sites.take(i as int)),
                    j < envs.len(),
                    reference == &envs[j as int].reference,
                    entries@ == base + envs.take(j as int).map_values(
                        |e: EnvironmentSummary| e.reference,
                    ),
                    unique_environment_ids(entries@),
                    k <= entries@.len(),
                    forall|m: int|
                        0 <= m < k ==> #[trigger] entries@[m].environment_id@
                            != reference.environment_id@,
                decreases entries@.len() - k,
            {
                if entries[k].environment_id.same(&reference.environment_id) {
                    proof {
                        let all = catalog_references(sites);
                        let prefix = entries@.push(*reference);
                        assert(sites.take(i + 1).drop_last() =~= sites.take(i as int));
                        assert(sites.take(i + 1).last() == sites[i as int]);
                        let at = catalog_references(sites.take(i + 1));
                        assert(prefix =~= at.take(prefix.len() as int)) by {
                            assert(envs.take(j + 1).map_values(
                                |e: EnvironmentSummary| e.reference,
                            ) =~= envs.take(j as int).map_values(
                                |e: EnvironmentSummary| e.reference,
                            ).push(envs[j as int].reference));
                            assert(at =~= base + envs.map_values(
                                |e: EnvironmentSummary| e.reference,
                            ));
                        }
                        lemma_catalog_references_prefix(sites, i + 1);
                        assert(all[k as int] == prefix[k as int]);
                        assert(all[entries@.len() as int] == prefix[entries@.len() as int]);
                    }
                    return Err(provider_contract_error());
                }
                k = k + 1;
            }
            let ghost before = entries@;
            entries.push(reference.clone());
            proof {
                assert(envs.take(j + 1).map_values(|e: EnvironmentSummary| e.reference)
                    =~= envs.take(j as int).map_values(|e: EnvironmentSummary| e.reference).push(
                    envs[j as int].reference,
                ));
                assert(entries@ =~= base + envs.take(j + 1).map_values(
                    |e: EnvironmentSummary| e.reference,
                ));
            }
            j = j + 1;
        }
        proof {
            assert(sites.take(i + 1).drop_last() =~= sites.take(i as int));
            assert(envs.take(envs.len() as int) =~= envs);
        }
        i = i + 1;
    }
    assert(sites.take(sites.len() as int) =~= sites);
    Ok(EnvironmentIndex { entries })
}

// ---------------------------------------------------------------------------------------------
// WordPress inventory
// ---------------------------------------------------------------------------------------------
/// Plugin or theme inventory endpoints.
#[derive(Debug, Clone, Copy, PartialEq, Eq, Structural)]
pub enum InventoryKind {
    Plugin,
    Theme,
}

pub open spec fn inventory_kind_component(kind: InventoryKind) -> WordPressComponentKind {
    match kind {
        InventoryKind::Plugin => WordPressComponentKind::Plugin,
        InventoryKind::Theme => WordPressComponentKind::Theme,
    }
}

impl InventoryKind {
    /// The company endpoint path segment for this kind.
    pub fn path_segment(self) -> (r: &'static str)
        ensures
            r@ == (match self {
                InventoryKind::Plugin => "wp-plugins"@,
                InventoryKind::Theme => "wp-themes"@,
            }),
    {
        match self {
            InventoryKind::Plugin => "wp-plugins",
            InventoryKind::Theme => "wp-themes",
        }
    }

    pub fn core_kind(self) -> (r: WordPressComponentKind)
        ensures
            r == inventory_kind_component(self),
    {
        match self {
            InventoryKind::Plugin => WordPressComponentKind::Plugin,
            InventoryKind::Theme => WordPressComponentKind::Theme,
        }
    }
}

/// One installation as Kinsta reports it.
#[derive(Debug)]
pub struct InventoryInstallation {
    pub id: String,
    pub status: String,
    pub update: Option<String>,
    pub version: String,
    pub is_version_vulnerable: bool,
    pub update_version: Option<String>,
    pub is_update_version_vulnerable: bool,
    pub update_status: Option<String>,
    pub auto_update_type: Option<String>,
}

/// One component as Kinsta reports it.
#[derive(Debug)]
pub struct InventoryItem {
    pub name: String,
    pub title: String,
    pub description: Option<String>,
    pub latest_version: Option<String>,
    pub is_latest_version_vulnerable: bool,
    pub environment_count: u64,
    pub update_count: u64,
    pub environments: Vec<InventoryInstallation>,
}

/// One inventory page.
#[derive(Debug)]
pub struct InventoryPage {
    pub total: u64,
    pub last_updated_at: Option<String>,
    pub items: Vec<InventoryItem>,
}

/// Every page of an inventory, joined.
#[derive(Debug)]
pub struct RawInventory {
    pub total: u64,
    pub refreshed_at: Option<String>,
    pub items: Vec<InventoryItem>,
}

impl SortKey for WordPressComponentInstallation {
    open spec fn sort_key(&self) -> Seq<Seq<char>> {
        seq![self.environment.site_id@, self.environment.environment_id@]
    }

    fn key_less(&self, other: &Self) -> (r: bool) {
        key_less2(
            self.environment.site_id.as_str(),
            self.environment.environment_id.as_str(),
            other.environment.site_id.as_str(),
            other.environment.environment_id.as_str(),
        )
    }
}

impl SortKey for WordPressComponent {
    open spec fn sort_key(&self) -> Seq<Seq<char>> {
        seq![self.title@, self.slug@]
    }

    fn key_less(&self, other: &Self) -> (r: bool) {
        key_less2(self.title.as_str(), self.slug.as_str(), other.title.as_str(), other.slug.as_str())
    }
}

/// The installation joined to its exact catalog environment, with the wire values kept.
pub open spec fn installation_mapped(
    index: Seq<EnvironmentRef>,
    w: InventoryInstallation,
    i: WordPressComponentInstallation,
) -> bool {
    &&& find_ref(index, w.id@) == Some(i.environment)
    &&& i.status == w.status
    &&& i.installed_version == w.version
    &&& i.installed_version_vulnerable == w.is_version_vulnerable
    &&& i.update_state == w.update
    &&& i.available_version == w.update_version
    &&& i.available_version_vulnerable == w.is_update_version_vulnerable
    &&& i.update_status == w.update_status
    &&& i.auto_update_type == w.auto_update_type
}

/// Every installation of the item names an environment of the catalog.
pub open spec fn item_resolvable(index: Seq<EnvironmentRef>, w: InventoryItem) -> bool {
    forall|k: int|
        0 <= k < w.environments@.len() ==> (#[trigger] find_ref(index, w.environments@[k].id@)) is Some
}

/// The component keeps the item's values and its installations joined and sorted.
pub open spec fn component_mapped(
    index: Seq<EnvironmentRef>,
    w: InventoryItem,
    c: WordPressComponent,
) -> bool {
    &&& c.slug == w.name
    &&& c.title == w.title
    &&& c.description == w.description
    &&& c.latest_version == w.latest_version
    &&& c.latest_version_vulnerable == w.is_latest_version_vulnerable
    &&& c.environment_count == w.environment_count
    &&& c.update_count == w.update_count
    &&& sorted_by_key(c.installations@)
    &&& exists|m: Seq<WordPressComponentInstallation>|
        #![trigger m.to_multiset()]
        m.len() == w.environments@.len() && (forall|k: int|
            0 <= k < m.len() ==> installation_mapped(index, #[trigger] w.environments@[k], m[k]))
            && c.installations@.to_multiset() == m.to_multiset() && same_order_per_key(
            c.installations@,
            m,
        )
}

/// Whether every installation in `items` names an environment of the catalog.
pub fn inventory_references_known(items: &Vec<InventoryItem>, index: &EnvironmentIndex) -> (r: bool)
    ensures
        r == forall|i: int| 0 <= i < items@.len() ==> item_resolvable(index@, #[trigger] items@[i]),
{
    let mut i: usize = 0;
    while i < items.len()
        invariant
            i <= items@.len(),
            forall|k: int| 0 <= k < i ==> item_resolvable(index@, #[trigger] items@[k]),
        decreases items@.len() - i,
    {
        let installations = &items[i].environments;
        let mut j: usize = 0;
        while j < installations.len()
            invariant
                i < items@.len(),
                installations == &items@[i as int].environments,
                j <= installations@.len(),
                forall|k: int|
                    0 <= k < j ==> (#[trigger] find_ref(index@, installations@[k].id@)) is Some,
            decreases installations@.len() - j,
        {
            if index.lookup(installations[j].id.as_str()).is_none() {
                assert(!item_resolvable(index@, items@[i as int]));
                return false;
            }
            j = j + 1;
        }
        i = i + 1;
    }
    true
}

fn map_item(item: InventoryItem, index: &EnvironmentIndex) -> (r: Result<WordPressComponent, AppError>)
    ensures
        r is Ok <==> item_resolvable(index@, item),
        r matches Ok(c) ==> component_mapped(index@, item, c),
        r matches Err(e) ==> contract_error(e@),
{
    let ghost wire = item.environments@;
    let n = item.environments.len();
    let mut rest = reversed(item.environments);
    let mut installations: Vec<WordPressComponentInstallation> = Vec::new();
    let mut i: usize = 0;
    while i < n
        invariant
            n == wire.len(),
            wire == item.environments@,
            i <= n,
            rest@.len() == n - i,
            forall|k: int| 0 <= k < n - i ==> #[trigger] rest@[k] == wire[n - 1 - k],
            installations@.len() == i,
            forall|k: int| 0 <= k < i ==> (#[trigger] find_ref(index@, wire[k].id@)) is Some,
            forall|k: int|
                0 <= k < i ==> installation_mapped(index@, #[trigger] wire[k], installations@[k]),
        decreases n - i,
    {
        let w = rest.pop().unwrap();
        assert(w == wire[i as int]);
        let environment = match index.lookup(w.id.as_str()) {
            Some(environment) => environment,
            None => {
                assert(!item_resolvable(index@, item));
                return Err(provider_contract_error());
            },
        };
        installations.push(
            WordPressComponentInstallation {
                environment,
                status: w.status,
                installed_version: w.version,
                installed_version_vulnerable: w.is_version_vulnerable,
                update_state: w.update,
                available_version: w.update_version,
                available_version_vulnerable: w.is_update_version_vulnerable,
                update_status: w.update_status,
                auto_update_type: w.auto_update_type,
            },
        );
        i = i + 1;
    }
    let ghost mapped = installations@;
    sort_by_key(&mut installations);
    let component = WordPressComponent {
        slug: item.name,
        title: item.title,
        description: item.description,
        latest_version: item.latest_version,
        latest_version_vulnerable: item.is_latest_version_vulnerable,
        environment_count: item.environment_count,
        update_count: item.update_count,
        installations,
    };
    proof {
        assert(mapped.len() == wire.len() && (forall|k: int|
            0 <= k < mapped.len() ==> installation_mapped(index@, #[trigger] wire[k], mapped[k]))
            && component.installations@.to_multiset() == mapped.to_multiset()
            && same_order_per_key(component.installations@, mapped));
    }
    Ok(component)
}

/// Join a raw inventory to exact catalog environments: installations sorted by site and
/// environment, components sorted by title and slug. An unknown environment breaks the contract.
pub fn map_inventory(kind: InventoryKind, raw: RawInventory, index: &EnvironmentIndex) -> (r: Result<
    WordPressComponentInventory,
    AppError,
>)
    ensures
        r is Ok <==> forall|i: int|
            0 <= i < raw.items@.len() ==> item_resolvable(index@, #[trigger] raw.items@[i]),
        r matches Ok(inventory) ==> {
            &&& inventory.kind == inventory_kind_component(kind)
            &&& inventory.total == raw.total
            &&& inventory.refreshed_at == raw.refreshed_at
            &&& sorted_by_key(inventory.components@)
            &&& exists|mapped: Seq<WordPressComponent>|
                #![trigger mapped.to_multiset()]
                mapped.len() == raw.items@.len() && (forall|i: int|
                    0 <= i < mapped.len() ==> component_mapped(
                        index@,
                        #[trigger] raw.items@[i],
                        mapped[i],
                    )) && inventory.components@.to_multiset() == mapped.to_multiset()
                    && same_order_per_key(inventory.components@, mapped)
        },
        r matches Err(e) ==> contract_error(e@),
{
    let ghost wire = raw.items@;
    let n = raw.items.len();
    let mut rest = reversed(raw.items);
    let mut components: Vec<WordPressComponent> = Vec::new();
    let mut i: usize = 0;
    while i < n
        invariant
            n == wire.len(),
            wire == raw.items@,
            i <= n,
            rest@.len() == n - i,
            forall|k: int| 0 <= k < n - i ==> #[trigger] rest@[k] == wire[n - 1 - k],
            components@.len() == i,
            forall|k: int| 0 <= k < i ==> item_resolvable(index@, #[trigger] wire[k]),
            forall|k: int| 0 <= k < i ==> component_mapped(index@, #[trigger] wire[k], components@[k]),
        decreases n - i,
    {
        let w = rest.pop().unwrap();
        assert(w == wire[i as int]);
        let component = match map_item(w, index) {
            Ok(component) => component,
            Err(error) => {
                assert(!item_resolvable(index@, raw.items@[i as int]));
                return Err(error);
            },
        };
        components.push(component);
        i = i + 1;
    }
    let ghost mapped = components@;
    sort_by_key(&mut components);
    let inventory = WordPressComponentInventory {
        kind: kind.core_kind(),
        total: raw.total,
        refreshed_at: raw.refreshed_at,
        components,
    };
    proof {
        assert(mapped.len() == wire.len() && (forall|k: int|
            0 <= k < mapped.len() ==> component_mapped(index@, #[trigger] wire[k], mapped[k]))
            && inventory.components@.to_multiset() == mapped.to_multiset()
            && same_order_per_key(inventory.components@, mapped));
    }
    Ok(inventory)
}

// ---------------------------------------------------------------------------------------------
// Inventory paging
// ---------------------------------------------------------------------------------------------
/// Bounds on one inventory listing.
#[derive(Debug, Clone, Copy, PartialEq, Eq, Structural)]
pub struct InventoryLimits {
    pub max_items: u64,
    pub max_pages: u64,
    pub max_body_bytes: usize,
}

/// The production bounds on inventory listings.
pub fn inventory_limits() -> (r: InventoryLimits)
    ensures
        r.max_items == MAX_INVENTORY_ITEMS,
        r.max_pages == MAX_INVENTORY_PAGES,
        r.max_body_bytes == MAX_INVENTORY_BODY_BYTES,
{
    InventoryLimits {
        max_items: MAX_INVENTORY_ITEMS,
        max_pages: MAX_INVENTORY_PAGES,
        max_body_bytes: MAX_INVENTORY_BODY_BYTES,
    }
}

pub open spec fn item_names(items: Seq<InventoryItem>) -> Seq<Seq<char>> {
    items.map_values(|i: InventoryItem| i.name@)
}

pub open spec fn opt_text(o: Option<String>) -> Option<Seq<char>> {
    match o {
        Some(s) => Some(s@),
        None => None,
    }
}

/// The abstract state of an inventory listing in progress.
pub struct PagerView {
    pub limits: InventoryLimits,
    pub offset: u64,
    pub expected_total: Option<u64>,
    pub refreshed_at: Option<Seq<char>>,
    pub items: Seq<InventoryItem>,
    pub pages: u64,
    pub body_bytes: int,
}

/// Pages of an inventory listing fetched so far, checked for consistency as they arrive.
#[derive(Debug)]
pub struct InventoryPager {
    limits: InventoryLimits,
    offset: u64,
    expected_total: Option<u64>,
    refreshed_at: Option<String>,
    items: Vec<InventoryItem>,
    names: Vec<String>,
    pages: u64,
    body_bytes: usize,
}

impl View for InventoryPager {
    type V = PagerView;

    closed spec fn view(&self) -> PagerView {
        PagerView {
            limits: self.limits,
            offset: self.offset,
            expected_total: self.expected_total,
            refreshed_at: opt_text(self.refreshed_at),
            items: self.items@,
            pages: self.pages,
            body_bytes: self.body_bytes as int,
        }
    }
}

/// What a page does to a listing: ask for the next offset, or finish with every item.
#[derive(Debug)]
pub enum PageStep {
    Next(InventoryPager),
    Done(RawInventory),
}

/// Why a page breaks the listing's contract, if it does.
pub open spec fn page_rejected(o: PagerView, page: InventoryPage, body_len: usize) -> bool {
    let joined = o.items.len() + page.items@.len();
    ||| o.body_bytes + body_len > o.limits.max_body_bytes
    ||| page.total > o.limits.max_items
    ||| (o.expected_total matches Some(t) && t != page.total)
    ||| (o.pages != 1 && opt_text(page.last_updated_at) != o.refreshed_at)
    ||| !(item_names(o.items) + item_names(page.items@)).no_duplicates()
    ||| page.items@.len() > INVENTORY_PAGE_SIZE
    ||| joined > o.limits.max_items
    ||| joined > page.total
    ||| (joined != page.total && page.items@.len() == 0)
}

/// The snapshot timestamp the listing keeps after a page.
pub open spec fn next_refreshed_at(o: PagerView, page: InventoryPage) -> Option<Seq<char>> {
    if o.pages == 1 {
        opt_text(page.last_updated_at)
    } else {
        o.refreshed_at
    }
}

impl InventoryPager {
    #[verifier::type_invariant]
    spec fn consistent(self) -> bool {
        &&& self.names@.map_values(|n: String| n@) == item_names(self.items@)
        &&& item_names(self.items@).no_duplicates()
    }

    /// A listing that has fetched nothing yet.
    pub fn new(limits: InventoryLimits) -> (r: InventoryPager)
        ensures
            r@ == (PagerView {
                limits,
                offset: 0,
                expected_total: None,
                refreshed_at: None,
                items: Seq::empty(),
                pages: 0,
                body_bytes: 0,
            }),
    {
        let items: Vec<InventoryItem> = Vec::new();
        let names: Vec<String> = Vec::new();
        assert(names@.map_values(|n: String| n@) =~= item_names(items@));
        InventoryPager {
            limits,
            offset: 0,
            expected_total: None,
            refreshed_at: None,
            items,
            names,
            pages: 0,
            body_bytes: 0,
        }
    }

    /// Count the next page request against the page budget and return its offset.
    pub fn next_request(&mut self) -> (r: Result<u64, AppError>)
        ensures
            r is Ok <==> old(self)@.pages < old(self)@.limits.max_pages,
            r matches Ok(offset) ==> offset == old(self)@.offset && final(self)@ == (PagerView {
                pages: (old(self)@.pages + 1) as u64,
                ..old(self)@
            }),
            r matches Err(e) ==> contract_error(e@) && final(self)@ == old(self)@,
    {
        proof {
            use_type_invariant(&*self);
        }
        if self.pages >= self.limits.max_pages {
            return Err(provider_contract_error());
        }
        self.pages = self.pages + 1;
        Ok(self.offset)
    }

    /// Take one fetched page of `body_len` bytes: reject it if it breaks the listing's contract,
    /// finish when every item has arrived, else continue at the next offset.
    pub fn accept(self, page: InventoryPage, body_len: usize) -> (r: Result<PageStep, AppError>)
        ensures
            r is Err <==> page_rejected(self@, page, body_len),
            r matches Err(e) ==> contract_error(e@),
            r matches Ok(PageStep::Done(raw)) ==> {
                &&& self@.items.len() + page.items@.len() == page.total
                &&& raw.total == page.total
                &&& raw.items@ == self@.items + page.items@
                &&& opt_text(raw.refreshed_at) == next_refreshed_at(self@, page)
            },
            r matches Ok(PageStep::Next(next)) ==> {
                &&& self@.items.len() + page.items@.len() != page.total
                &&& next@ == PagerView {
                    limits: self@.limits,
                    offset: (self@.items.len() + page.items@.len()) as u64,
                    expected_total: Some(page.total),
                    refreshed_at: next_refreshed_at(self@, page),
                    items: self@.items + page.items@,
                    pages: self@.pages,
                    body_bytes: self@.body_bytes + body_len,
                }
            },
    {
        proof {
            use_type_invariant(&self);
        }
        let ghost o = self@;
        let mut pager = self;
        if pager.body_bytes > pager.limits.max_body_bytes || body_len > pager.limits.max_body_bytes
            - pager.body_bytes {
            return Err(provider_contract_error());
        }
        if page.total > pager.limits.max_items {
            return Err(provider_contract_error());
        }
        if let Some(total) = pager.expected_total {
            if total != page.total {
                return Err(provider_contract_error());
            }
        }
        let refreshed_at = if pager.pages == 1 {
            clone_optional(&page.last_updated_at)
        } else {
            let same = match (&page.last_updated_at, &pager.refreshed_at) {
                (Some(a), Some(b)) => str_eq(a.as_str(), b.as_str()),
                (None, None) => true,
                _ => false,
            };
            if !same {
                return Err(provider_contract_error());
            }
            clone_optional(&pager.refreshed_at)
        };
        let ghost old_names = item_names(o.items);
        let ghost new_names = item_names(page.items@);
        let mut names = pager.names;
        let mut k: usize = 0;
        while k < page.items.len()
            invariant
                o == self@,
                old_names == item_names(o.items),
                k <= page.items@.len(),
                new_names == item_names(page.items@),
                names@.map_values(|n: String| n@) == old_names + new_names.take(k as int),
                (old_names + new_names.take(k as int)).no_duplicates(),
            decreases page.items@.len() - k,
        {
            let name = &page.items[k].name;
            let mut m: usize = 0;
            while m < names.len()
                invariant
                    o == self@,
                    old_names == item_names(o.items),
                    k < page.items@.len(),
                    name == &page.items@[k as int].name,
                    new_names == item_names(page.items@),
                    names@.map_values(|n: String| n@) == old_names + new_names.take(k as int),
                    m <= names@.len(),
                    forall|q: int| 0 <= q < m ==> #[trigger] names@[q]@ != name@,
                decreases names@.len() - m,
            {
                if str_eq(names[m].as_str(), name.as_str()) {
                    proof {
                        let full = old_names + new_names;
                        let prefix = old_names + new_names.take(k as int);
                        assert(new_names.len() == page.items@.len());
                        assert(prefix.len() == old_names.len() + k);
                        assert(names@.len() == prefix.len());
                        let a = m as int;
                        let b = old_names.len() + k;
                        assert(names@.map_values(|n: String| n@)[a] == names@[a]@);
                        assert(full[a] == (old_names + new_names.take(k as int))[a]);
                        assert(full[b] == new_names[k as int]);
                        assert(a != b);
                        assert(full[a] == full[b]);
                        assert(!full.no_duplicates());
                    }
                    return Err(provider_contract_error());
                }
                m = m + 1;
            }
            let ghost before = names@;
            names.push(name.clone());
            proof {
                assert(new_names.take(k + 1) =~= new_names.take(k as int).push(new_names[k as int]));
                assert(names@.map_values(|n: String| n@) =~= (old_names + new_names.take(
                    k as int,
                )).push(new_names[k as int]));
                let prev = old_names + new_names.take(k as int);
                let next = old_names + new_names.take(k + 1);
                assert(next =~= prev.push(new_names[k as int]));
                assert forall|x: int, y: int|
                    0 <= x < next.len() && 0 <= y < next.len() && x != y implies next[x]
                    != next[y] by {
                    if x < prev.len() && y < prev.len() {
                    } else if x == prev.len() as int {
                        assert(names@.map_values(|n: String| n@)[y] == names@[y]@);
                    } else {
                        assert(names@.map_values(|n: String| n@)[x] == names@[x]@);
                    }
                }
            }
            k = k + 1;
        }
        assert(new_names.take(page.items@.len() as int) =~= new_names);
        let page_len = page.items.len();
        if page_len as u64 > INVENTORY_PAGE_SIZE {
            return Err(provider_contract_error());
        }
        let held = pager.items.len();
        if held as u64 > pager.limits.max_items || page_len as u64 > pager.limits.max_items
            - held as u64 {
            return Err(provider_contract_error());
        }
        let joined = held as u64 + page_len as u64;
        if joined > page.total {
            return Err(provider_contract_error());
        }
        if joined != page.total && page_len == 0 {
            return Err(provider_contract_error());
        }
        let mut page_items = page.items;
        let mut items = pager.items;
        items.append(&mut page_items);
        proof {
            assert(item_names(items@) =~= old_names + new_names);
        }
        if joined == page.total {
            return Ok(PageStep::Done(RawInventory { total: page.total, refreshed_at, items }));
        }
        let next = InventoryPager {
            limits: pager.limits,
            offset: joined,
            expected_total: Some(page.total),
            refreshed_at,
            items,
            names,
            pages: pager.pages,
            body_bytes: pager.body_bytes + body_len,
        };
        Ok(PageStep::Next(next))
    }
}

// ---------------------------------------------------------------------------------------------
// Provider identity
// ---------------------------------------------------------------------------------------------
/// The built-in Kinsta provider description.
pub fn kinsta_descriptor() -> (r: ProviderDescriptor)
    ensures
        r.id@ == "kinsta"@,
        r.display_name@ == "Kinsta"@,
        r.documentation_url matches Some(url) && url@ == "https://api-docs.kinsta.com/"@,
{
    proof {
        reveal_strlit("kinsta");
        reveal_strlit("provider id");
        let k = "kinsta"@;
        assert(vstd::utf8::is_ascii_chars(k));
        vstd::utf8::is_ascii_chars_encode_utf8(k);
        assert(!crate::text::has_control(k));
        assert(crate::model::valid_provider_id(k));
    }
    ProviderDescriptor {
        id: ProviderId::new("kinsta").unwrap(),
        display_name: "Kinsta".to_owned(),
        documentation_url: Some("https://api-docs.kinsta.com/".to_owned()),
    }
}

/// A profile handled by this adapter must belong to its provider.
pub fn ensure_profile(provider: &ProviderId, profile: &ProviderProfileRef) -> (r: Result<(), AppError>)
    ensures
        r is Ok <==> profile.provider@ == provider@,
        r matches Err(e) ==> plain_error(
            e@,
            ErrorCode::InvalidInput,
            "profile does not belong to the Kinsta provider"@,
        ),
{
    if profile.provider.same(provider) {
        return Ok(());
    }
    Err(AppError::new(ErrorCode::InvalidInput, "profile does not belong to the Kinsta provider"))
}

/// An environment handled by this adapter must belong to its provider.
pub fn ensure_environment(provider: &ProviderId, environment: &EnvironmentRef) -> (r: Result<
    (),
    AppError,
>)
    ensures
        r is Ok <==> environment.provider@ == provider@,
        r matches Err(e) ==> plain_error(
            e@,
            ErrorCode::InvalidInput,
            "environment does not belong to the Kinsta provider"@,
        ),
{
    if environment.provider.same(provider) {
        return Ok(());
    }
    Err(AppError::new(ErrorCode::InvalidInput, "environment does not belong to the Kinsta provider"))
}

} // verus!
