//! Provider capabilities, SSH coordinates, catalog snapshots and WordPress inventory.
use crate::error::{plain_error, AppError, AppErrorView, ErrorCode};
use crate::model::{
    EnvironmentKind, EnvironmentRef, OpaqueId, ProviderId, ProviderProfileRef, SiteRef,
    ArtifactRef,
};
use crate::text::{byte_len, chars_of, contains_control, has_control, is_ascii_alphanumeric, utf8_len};
use vstd::prelude::*;

verus! {

broadcast use vstd::string::group_string_axioms;

/// Static information about one provider adapter.
#[derive(Debug, PartialEq, Eq)]
pub struct ProviderDescriptor {
    pub id: ProviderId,
    pub display_name: String,
    pub documentation_url: Option<String>,
}

/// Static identity shared by all capability-specific provider interfaces.
pub trait ProviderIdentity {
    fn descriptor(&self) -> &ProviderDescriptor;
}

/// A provider label attached to a site.
#[derive(Debug, PartialEq, Eq)]
pub struct SiteLabel {
    pub id: OpaqueId,
    pub name: String,
}

impl Clone for SiteLabel {
    fn clone(&self) -> (r: Self)
        ensures
            r == *self,
    {
        SiteLabel { id: self.id.clone(), name: self.name.clone() }
    }
}

/// `Option<String>::clone`, keeping the value.
pub fn clone_optional(value: &Option<String>) -> (r: Option<String>)
    ensures
        r == *value,
{
    match value {
        Some(s) => Some(s.clone()),
        None => None,
    }
}

/// Clone of a label list, keeping every label.
pub fn clone_labels(labels: &Vec<SiteLabel>) -> (r: Vec<SiteLabel>)
    ensures
        r@ == labels@,
{
    let mut out: Vec<SiteLabel> = Vec::new();
    let mut i: usize = 0;
    while i < labels.len()
        invariant
            i <= labels@.len(),
            out@ == labels@.take(i as int),
        decreases labels@.len() - i,
    {
        out.push(labels[i].clone());
        i = i + 1;
        assert(out@ =~= labels@.take(i as int));
    }
    assert(labels@.take(labels@.len() as int) =~= labels@);
    out
}

/// Minimal site information returned by catalog operations.
#[derive(Debug, PartialEq, Eq)]
pub struct SiteSummary {
    pub reference: SiteRef,
    pub display_name: String,
    pub primary_domain: Option<String>,
    pub labels: Vec<SiteLabel>,
}

/// Two site summaries hold the same values.
pub open spec fn same_site_summary(a: SiteSummary, b: SiteSummary) -> bool {
    a.reference == b.reference && a.display_name == b.display_name && a.primary_domain
        == b.primary_domain && a.labels@ == b.labels@
}

impl Clone for SiteSummary {
    fn clone(&self) -> (r: Self)
        ensures
            same_site_summary(r, *self),
    {
        SiteSummary {
            reference: self.reference.clone(),
            display_name: self.display_name.clone(),
            primary_domain: clone_optional(&self.primary_domain),
            labels: clone_labels(&self.labels),
        }
    }
}

/// Minimal environment information returned by catalog operations.
#[derive(Debug, PartialEq, Eq)]
pub struct EnvironmentSummary {
    pub reference: EnvironmentRef,
    pub display_name: String,
    pub kind: EnvironmentKind,
    pub provider_kind: Option<String>,
    pub primary_domain: Option<String>,
}

impl Clone for EnvironmentSummary {
    fn clone(&self) -> (r: Self)
        ensures
            r == *self,
    {
        EnvironmentSummary {
            reference: self.reference.clone(),
            display_name: self.display_name.clone(),
            kind: self.kind,
            provider_kind: clone_optional(&self.provider_kind),
            primary_domain: clone_optional(&self.primary_domain),
        }
    }
}

/// Support and current availability of one versioned provider capability.
#[derive(Debug, PartialEq, Eq)]
pub struct Capability {
    pub name: String,
    pub version: u16,
    pub supported: bool,
    pub available: bool,
    pub reason: Option<String>,
    pub remediation: Option<String>,
}

impl Capability {
    /// A supported capability that can be used now.
    pub fn available(name: &str, version: u16) -> (r: Capability)
        ensures
            r.name@ == name@,
            r.version == version,
            r.supported,
            r.available,
            r.reason is None,
            r.remediation is None,
    {
        Capability {
            name: name.to_owned(),
            version,
            supported: true,
            available: true,
            reason: None,
            remediation: None,
        }
    }

    /// A capability this provider does not implement.
    pub fn unsupported(name: &str, version: u16) -> (r: Capability)
        ensures
            r.name@ == name@,
            r.version == version,
            !r.supported,
            !r.available,
            r.reason matches Some(reason) && reason@ == "unsupported"@,
            r.remediation is None,
    {
        Capability {
            name: name.to_owned(),
            version,
            supported: false,
            available: false,
            reason: Some("unsupported".to_owned()),
            remediation: None,
        }
    }

    /// A supported capability that is currently unavailable, with the reason and remediation.
    pub fn unavailable(name: &str, version: u16, reason: &str, remediation: Option<String>) -> (r:
        Capability)
        ensures
            r.name@ == name@,
            r.version == version,
            r.supported,
            !r.available,
            r.reason matches Some(given) && given@ == reason@,
            r.remediation == remediation,
    {
        Capability {
            name: name.to_owned(),
            version,
            supported: true,
            available: false,
            reason: Some(reason.to_owned()),
            remediation,
        }
    }
}

pub open spec fn ssh_host_char(c: char) -> bool {
    is_ascii_alphanumeric(c) || c == '.' || c == '-' || c == ':' || c == '[' || c == ']'
}

pub open spec fn ssh_user_char(c: char) -> bool {
    is_ascii_alphanumeric(c) || c == '_' || c == '-' || c == '.'
}

/// A non-empty ASCII host name or bracketed address that cannot be read as an option.
pub open spec fn valid_ssh_host(s: Seq<char>) -> bool {
    s.len() > 0 && utf8_len(s) <= 255 && s[0] != '-' && forall|i: int|
        0 <= i < s.len() ==> #[trigger] ssh_host_char(s[i])
}

/// A non-empty login name that cannot be read as an option.
pub open spec fn valid_ssh_user(s: Seq<char>) -> bool {
    s.len() > 0 && utf8_len(s) <= 64 && s[0] != '-' && forall|i: int|
        0 <= i < s.len() ==> #[trigger] ssh_user_char(s[i])
}

/// An absolute, control-free path of at most 4096 bytes.
pub open spec fn valid_working_directory(s: Seq<char>) -> bool {
    s.len() > 0 && s[0] == '/' && utf8_len(s) <= 4096 && !has_control(s)
}

fn all_ssh_chars(value: &Vec<char>, user: bool) -> (r: bool)
    ensures
        r == (forall|i: int|
            0 <= i < value@.len() ==> (if user {
                ssh_user_char(#[trigger] value@[i])
            } else {
                ssh_host_char(value@[i])
            })),
{
    let mut i: usize = 0;
    while i < value.len()
        invariant
            i <= value@.len(),
            forall|j: int|
                0 <= j < i ==> (if user {
                    ssh_user_char(#[trigger] value@[j])
                } else {
                    ssh_host_char(value@[j])
                }),
        decreases value@.len() - i,
    {
        let c = value[i];
        let ok = if user {
            ('a' <= c && c <= 'z') || ('A' <= c && c <= 'Z') || ('0' <= c && c <= '9') || c == '_'
                || c == '-' || c == '.'
        } else {
            ('a' <= c && c <= 'z') || ('A' <= c && c <= 'Z') || ('0' <= c && c <= '9') || c == '.'
                || c == '-' || c == ':' || c == '[' || c == ']'
        };
        if !ok {
            return false;
        }
        i = i + 1;
    }
    true
}

fn validate_ssh_host(host: &str) -> (r: Result<(), AppError>)
    ensures
        r is Ok <==> valid_ssh_host(host@),
        r matches Err(e) ==> plain_error(
            e@,
            ErrorCode::InvalidInput,
            "SSH host is empty, unsafe, or longer than 255 bytes"@,
        ),
{
    let chars = chars_of(host);
    let valid = chars.len() > 0 && byte_len(host) <= 255 && chars[0] != '-' && all_ssh_chars(
        &chars,
        false,
    );
    if valid {
        return Ok(());
    }
    Err(AppError::new(ErrorCode::InvalidInput, "SSH host is empty, unsafe, or longer than 255 bytes"))
}

fn validate_ssh_user(user: &str) -> (r: Result<(), AppError>)
    ensures
        r is Ok <==> valid_ssh_user(user@),
        r matches Err(e) ==> plain_error(
            e@,
            ErrorCode::InvalidInput,
            "SSH user is empty, unsafe, or longer than 64 bytes"@,
        ),
{
    let chars = chars_of(user);
    let valid = chars.len() > 0 && byte_len(user) <= 64 && chars[0] != '-' && all_ssh_chars(
        &chars,
        true,
    );
    if valid {
        return Ok(());
    }
    Err(AppError::new(ErrorCode::InvalidInput, "SSH user is empty, unsafe, or longer than 64 bytes"))
}

fn validate_working_directory(directory: &str) -> (r: Result<(), AppError>)
    ensures
        r is Ok <==> valid_working_directory(directory@),
        r matches Err(e) ==> plain_error(
            e@,
            ErrorCode::InvalidInput,
            "SSH working directory must be an absolute, control-free path of at most 4096 bytes"@,
        ),
{
    let chars = chars_of(directory);
    let valid = chars.len() > 0 && chars[0] == '/' && byte_len(directory) <= 4096
        && !contains_control(directory);
    if valid {
        return Ok(());
    }
    Err(
        AppError::new(
            ErrorCode::InvalidInput,
            "SSH working directory must be an absolute, control-free path of at most 4096 bytes",
        ),
    )
}

/// The abstract SSH coordinates: host, port, user and optional working directory.
pub struct SshTargetView {
    pub host: Seq<char>,
    pub port: u16,
    pub user: Seq<char>,
    pub working_directory: Option<Seq<char>>,
}

/// Structured SSH coordinates. Provider-returned shell command strings are never authoritative.
#[derive(Debug, PartialEq, Eq)]
pub struct SshTarget {
    host: String,
    port: u16,
    user: String,
    working_directory: Option<String>,
}

impl View for SshTarget {
    type V = SshTargetView;

    closed spec fn view(&self) -> SshTargetView {
        SshTargetView {
            host: self.host@,
            port: self.port,
            user: self.user@,
            working_directory: match self.working_directory {
                Some(d) => Some(d@),
                None => None,
            },
        }
    }
}

/// The first validation failure of the given coordinates, if any.
pub open spec fn ssh_target_error(
    host: Seq<char>,
    port: u16,
    user: Seq<char>,
    working_directory: Option<Seq<char>>,
) -> Option<AppErrorView> {
    if !valid_ssh_host(host) {
        Some(
            AppErrorView {
                code: ErrorCode::InvalidInput,
                message: "SSH host is empty, unsafe, or longer than 255 bytes"@,
                hint: None,
            },
        )
    } else if !valid_ssh_user(user) {
        Some(
            AppErrorView {
                code: ErrorCode::InvalidInput,
                message: "SSH user is empty, unsafe, or longer than 64 bytes"@,
                hint: None,
            },
        )
    } else if port == 0 {
        Some(
            AppErrorView {
                code: ErrorCode::InvalidInput,
                message: "SSH port must be greater than zero"@,
                hint: None,
            },
        )
    } else if working_directory matches Some(d) && !valid_working_directory(d) {
        Some(
            AppErrorView {
                code: ErrorCode::InvalidInput,
                message: "SSH working directory must be an absolute, control-free path of at most 4096 bytes"@,
                hint: None,
            },
        )
    } else {
        None
    }
}

impl SshTarget {
    #[verifier::type_invariant]
    pub open spec fn inv(self) -> bool {
        ssh_target_error(self@.host, self@.port, self@.user, self@.working_directory) is None
    }

    pub fn try_new(host: &str, port: u16, user: &str, working_directory: Option<String>) -> (r:
        Result<SshTarget, AppError>)
        ensures
            match ssh_target_error(
                host@,
                port,
                user@,
                match working_directory {
                    Some(d) => Some(d@),
                    None => None,
                },
            ) {
                None => r matches Ok(t) && t@.host == host@ && t@.port == port && t@.user == user@
                    && t@.working_directory == (match working_directory {
                    Some(d) => Some(d@),
                    None => None,
                }),
                Some(e) => r matches Err(err) && err@ == e,
            },
    {
        validate_ssh_host(host)?;
        validate_ssh_user(user)?;
        if port == 0 {
            return Err(AppError::new(ErrorCode::InvalidInput, "SSH port must be greater than zero"));
        }
        if let Some(directory) = &working_directory {
            validate_working_directory(directory.as_str())?;
        }
        Ok(SshTarget { host: host.to_owned(), port, user: user.to_owned(), working_directory })
    }

    pub fn host(&self) -> (r: &str)
        ensures
            r@ == self@.host,
            valid_ssh_host(r@),
    {
        proof {
            use_type_invariant(self);
        }
        self.host.as_str()
    }

    pub fn port(&self) -> (r: u16)
        ensures
            r == self@.port,
            r > 0,
    {
        proof {
            use_type_invariant(self);
        }
        self.port
    }

    pub fn user(&self) -> (r: &str)
        ensures
            r@ == self@.user,
            valid_ssh_user(r@),
    {
        proof {
            use_type_invariant(self);
        }
        self.user.as_str()
    }

    pub fn working_directory(&self) -> (r: Option<&str>)
        ensures
            match r {
                Some(d) => self@.working_directory == Some(d@),
                None => self@.working_directory is None,
            },
    {
        match &self.working_directory {
            Some(d) => Some(d.as_str()),
            None => None,
        }
    }
}

impl Clone for SshTarget {
    fn clone(&self) -> (r: Self)
        ensures
            r == *self,
    {
        proof {
            use_type_invariant(self);
        }
        SshTarget {
            host: self.host.clone(),
            port: self.port,
            user: self.user.clone(),
            working_directory: clone_optional(&self.working_directory),
        }
    }
}

/// Portable provider artifact types. Internal restore points are intentionally not artifacts.
#[derive(Debug, Clone, Copy, PartialEq, Eq, Structural)]
#[non_exhaustive]
pub enum ArtifactKind {
    ProviderExport,
    DatabaseDump,
    FilesArchive,
}

/// Secret-free metadata for an export or download.
#[derive(Debug, PartialEq, Eq)]
pub struct ArtifactSummary {
    pub reference: ArtifactRef,
    pub kind: ArtifactKind,
    pub created_at: Option<String>,
    pub expires_at: Option<String>,
    pub size_bytes: Option<u64>,
}

/// One site and its environments from a coherent catalog response.
#[derive(Debug, PartialEq, Eq)]
pub struct CatalogSite {
    pub site: SiteSummary,
    pub environments: Vec<EnvironmentSummary>,
}

/// Sites and environments visible to one profile.
#[derive(Debug, PartialEq, Eq)]
pub struct CatalogSnapshot {
    pub profile: ProviderProfileRef,
    pub sites: Vec<CatalogSite>,
}

/// WordPress extension categories.
#[derive(Debug, Clone, Copy, PartialEq, Eq, Structural)]
#[non_exhaustive]
pub enum WordPressComponentKind {
    Plugin,
    Theme,
}

/// One installation of a component on an exact environment.
#[derive(Debug, PartialEq, Eq)]
pub struct WordPressComponentInstallation {
    pub environment: EnvironmentRef,
    pub status: String,
    pub installed_version: String,
    pub installed_version_vulnerable: bool,
    pub update_state: Option<String>,
    pub available_version: Option<String>,
    pub available_version_vulnerable: bool,
    pub update_status: Option<String>,
    pub auto_update_type: Option<String>,
}

/// One company-wide plugin or theme and where it is installed.
#[derive(Debug, PartialEq, Eq)]
pub struct WordPressComponent {
    pub slug: String,
    pub title: String,
    pub description: Option<String>,
    pub latest_version: Option<String>,
    pub latest_version_vulnerable: bool,
    pub environment_count: u64,
    pub update_count: u64,
    pub installations: Vec<WordPressComponentInstallation>,
}

/// Company-wide plugin or theme inventory.
#[derive(Debug, PartialEq, Eq)]
pub struct WordPressComponentInventory {
    pub kind: WordPressComponentKind,
    pub total: u64,
    pub refreshed_at: Option<String>,
    pub components: Vec<WordPressComponent>,
}

} // verus!
