//! Human text of the provider commands. Provider-controlled text is escaped for the terminal
//! before it is placed in a heading or table; captured remote output keeps its lines.
use crate::catalog::{EnvironmentSelection, ResolvedEnvironment};
use crate::inventory::has_vulnerable_install;
use crate::machine::{MachineEnvironmentListData, MachineEnvironmentShowData, MachineInventoryData};
use crate::error::{plain_error, AppError, ErrorCode};
use crate::machine::MachineWarning;
use crate::model::{same_environment, EnvironmentKind, EnvironmentRef, OpaqueId, ProviderProfileRef};
use crate::profiles::{
    format_profile_ref, reference_text, same_ref, same_reference, CredentialSource, ProfileConfig,
    ProfileRecord,
};
use crate::provider::{
    Capability, EnvironmentSummary, SiteLabel, SiteSummary, WordPressComponent,
    WordPressComponentInstallation, WordPressComponentKind,
};
use crate::remote::execution_state_label;
use crate::ssh::{CaptureEncoding, CapturedStream, ExecutionState, TargetExecution};
use crate::text::{
    chars_of, decimal_digits, escape_terminal, push_decimal, push_signed_decimal, push_str,
    signed_decimal, terminal_output_safe, terminal_safe,
};
use vstd::prelude::*;

verus! {

broadcast use vstd::seq_lib::group_seq_properties;

/// Provider text as shown on a terminal.
pub open spec fn safe(s: Seq<char>) -> Seq<char> {
    escape_terminal(s, false)
}

/// The text of an optional value, or a dash.
pub open spec fn optional_text(value: Option<Seq<char>>) -> Seq<char> {
    match value {
        Some(s) => safe(s),
        None => "—"@,
    }
}

/// The characters of an optional string.
pub open spec fn opt_chars(value: Option<String>) -> Option<Seq<char>> {
    match value {
        Some(s) => Some(s@),
        None => None,
    }
}

pub open spec fn decimal(n: nat) -> Seq<char> {
    decimal_digits(n)
}

pub open spec fn yes_no(b: bool) -> Seq<char> {
    if b {
        "yes"@
    } else {
        "no"@
    }
}

/// Escape an optional value for the terminal, or show a dash.
pub fn safe_optional(value: Option<&str>) -> (r: String)
    ensures
        r@ == optional_text(
            match value {
                Some(s) => Some(s@),
                None => None,
            },
        ),
{
    match value {
        Some(s) => terminal_safe(s),
        None => "—".to_owned(),
    }
}

fn safe_optional_string(value: &Option<String>) -> (r: String)
    ensures
        r@ == optional_text(opt_chars(*value)),
{
    match value {
        Some(s) => terminal_safe(s.as_str()),
        None => "—".to_owned(),
    }
}

pub open spec fn kind_label(kind: EnvironmentKind) -> Seq<char> {
    match kind {
        EnvironmentKind::Production => "production"@,
        EnvironmentKind::Staging => "staging"@,
        EnvironmentKind::Development => "development"@,
        EnvironmentKind::Other => "other"@,
    }
}

pub fn environment_kind_label(kind: EnvironmentKind) -> (r: &'static str)
    ensures
        r@ == kind_label(kind),
{
    match kind {
        EnvironmentKind::Production => "production",
        EnvironmentKind::Staging => "staging",
        EnvironmentKind::Development => "development",
        EnvironmentKind::Other => "other",
    }
}

// ---------------------------------------------------------------------------------------------
// Sites
// ---------------------------------------------------------------------------------------------
/// Label names joined with `, `.
pub open spec fn label_names(labels: Seq<SiteLabel>) -> Seq<char>
    decreases labels.len(),
{
    if labels.len() == 0 {
        Seq::empty()
    } else if labels.len() == 1 {
        safe(labels[0].name@)
    } else {
        label_names(labels.drop_last()) + ", "@ + safe(labels.last().name@)
    }
}

pub open spec fn labels_text(labels: Seq<SiteLabel>) -> Seq<char> {
    if labels.len() == 0 {
        "—"@
    } else {
        label_names(labels)
    }
}

fn labels_line(labels: &Vec<SiteLabel>) -> (r: String)
    ensures
        r@ == labels_text(labels@),
{
    if labels.len() == 0 {
        return "—".to_owned();
    }
    let mut out = terminal_safe(labels[0].name.as_str());
    let mut i: usize = 1;
    assert(labels@.take(1).drop_last() =~= labels@.take(0));
    while i < labels.len()
        invariant
            1 <= i <= labels@.len(),
            out@ == label_names(labels@.take(i as int)),
        decreases labels@.len() - i,
    {
        push_str(&mut out, ", ");
        let name = terminal_safe(labels[i].name.as_str());
        push_str(&mut out, name.as_str());
        assert(labels@.take(i + 1).drop_last() =~= labels@.take(i as int));
        i = i + 1;
    }
    assert(labels@.take(labels@.len() as int) =~= labels@);
    out
}

pub open spec fn site_entry(s: SiteSummary) -> Seq<char> {
    "  "@ + safe(s.display_name@) + "\n    id: "@ + safe(s.reference.site_id@) + "\n    domain: "@
        + optional_text(opt_chars(s.primary_domain)) + "\n    labels: "@ + labels_text(s.labels@)
        + "\n"@
}

pub open spec fn site_entries(sites: Seq<SiteSummary>) -> Seq<char>
    decreases sites.len(),
{
    if sites.len() == 0 {
        Seq::empty()
    } else {
        site_entries(sites.drop_last()) + site_entry(sites.last())
    }
}

/// The human listing of sites.
pub open spec fn sites_text(sites: Seq<SiteSummary>) -> Seq<char> {
    if sites.len() == 0 {
        "No sites were returned by Kinsta.\n"@
    } else {
        "Sites ("@ + decimal(sites.len()) + ")\n\n"@ + site_entries(sites)
    }
}

fn push_site_entry(out: &mut String, site: &SiteSummary)
    ensures
        final(out)@ == old(out)@ + site_entry(*site),
{
    let ghost start = out@;
    push_str(out, "  ");
    let name = terminal_safe(site.display_name.as_str());
    push_str(out, name.as_str());
    push_str(out, "\n    id: ");
    let id = terminal_safe(site.reference.site_id.as_str());
    push_str(out, id.as_str());
    push_str(out, "\n    domain: ");
    let domain = safe_optional_string(&site.primary_domain);
    push_str(out, domain.as_str());
    push_str(out, "\n    labels: ");
    let labels = labels_line(&site.labels);
    push_str(out, labels.as_str());
    push_str(out, "\n");
    assert(out@ =~= start + site_entry(*site));
}

pub fn render_sites(sites: &[SiteSummary]) -> (r: String)
    ensures
        r@ == sites_text(sites@),
{
    if sites.len() == 0 {
        return "No sites were returned by Kinsta.\n".to_owned();
    }
    let mut out = "Sites (".to_owned();
    push_decimal(&mut out, sites.len() as u64);
    push_str(&mut out, ")\n\n");
    let ghost header = out@;
    let mut i: usize = 0;
    assert(sites@.take(0) =~= Seq::<SiteSummary>::empty());
    while i < sites.len()
        invariant
            i <= sites@.len(),
            header == "Sites ("@ + decimal(sites@.len()) + ")\n\n"@,
            out@ == header + site_entries(sites@.take(i as int)),
        decreases sites@.len() - i,
    {
        push_site_entry(&mut out, &sites[i]);
        assert(sites@.take(i + 1).drop_last() =~= sites@.take(i as int));
        assert(out@ =~= header + site_entries(sites@.take(i + 1)));
        i = i + 1;
    }
    assert(sites@.take(sites@.len() as int) =~= sites@);
    out
}

// ---------------------------------------------------------------------------------------------
// Environments
// ---------------------------------------------------------------------------------------------
pub open spec fn environment_entry(e: EnvironmentSummary) -> Seq<char> {
    "  "@ + safe(e.display_name@) + "  "@ + kind_label(e.kind) + "\n    id: "@ + safe(
        e.reference.environment_id@,
    ) + "\n    domain: "@ + optional_text(opt_chars(e.primary_domain)) + "\n"@
}

pub open spec fn environment_entries(environments: Seq<EnvironmentSummary>) -> Seq<char>
    decreases environments.len(),
{
    if environments.len() == 0 {
        Seq::empty()
    } else {
        environment_entries(environments.drop_last()) + environment_entry(environments.last())
    }
}

/// The human listing of a site's environments.
pub open spec fn environments_text(data: MachineEnvironmentListData) -> Seq<char> {
    safe(data.site.display_name@) + " environments ("@ + decimal(data.environments@.len())
        + ")\n\n"@ + environment_entries(data.environments@)
}

fn push_environment_entry(out: &mut String, environment: &EnvironmentSummary)
    ensures
        final(out)@ == old(out)@ + environment_entry(*environment),
{
    let ghost start = out@;
    push_str(out, "  ");
    let name = terminal_safe(environment.display_name.as_str());
    push_str(out, name.as_str());
    push_str(out, "  ");
    push_str(out, environment_kind_label(environment.kind));
    push_str(out, "\n    id: ");
    let id = terminal_safe(environment.reference.environment_id.as_str());
    push_str(out, id.as_str());
    push_str(out, "\n    domain: ");
    let domain = safe_optional_string(&environment.primary_domain);
    push_str(out, domain.as_str());
    push_str(out, "\n");
    assert(out@ =~= start + environment_entry(*environment));
}

pub fn render_environments(data: &MachineEnvironmentListData) -> (r: String)
    ensures
        r@ == environments_text(*data),
{
    let mut out = terminal_safe(data.site.display_name.as_str());
    push_str(&mut out, " environments (");
    push_decimal(&mut out, data.environments.len() as u64);
    push_str(&mut out, ")\n\n");
    let ghost header = out@;
    let ghost environments = data.environments@;
    let mut i: usize = 0;
    assert(environments.take(0) =~= Seq::<EnvironmentSummary>::empty());
    while i < data.environments.len()
        invariant
            i <= environments.len(),
            environments == data.environments@,
            header == safe(data.site.display_name@) + " environments ("@ + decimal(
                environments.len(),
            ) + ")\n\n"@,
            out@ == header + environment_entries(environments.take(i as int)),
        decreases environments.len() - i,
    {
        push_environment_entry(&mut out, &data.environments[i]);
        assert(environments.take(i + 1).drop_last() =~= environments.take(i as int));
        assert(out@ =~= header + environment_entries(environments.take(i + 1)));
        i = i + 1;
    }
    assert(environments.take(environments.len() as int) =~= environments);
    out
}

pub open spec fn capability_state(c: Capability) -> Seq<char> {
    if c.available {
        "available"@
    } else if c.supported {
        "unavailable"@
    } else {
        "unsupported"@
    }
}

pub open spec fn capability_line(c: Capability) -> Seq<char> {
    "    "@ + safe(c.name@) + " v"@ + decimal(c.version as nat) + ": "@ + capability_state(c)
        + "\n"@
}

pub open spec fn capability_lines(capabilities: Seq<Capability>) -> Seq<char>
    decreases capabilities.len(),
{
    if capabilities.len() == 0 {
        Seq::empty()
    } else {
        capability_lines(capabilities.drop_last()) + capability_line(capabilities.last())
    }
}

/// The human details of one environment and its capabilities.
pub open spec fn environment_text(data: MachineEnvironmentShowData) -> Seq<char> {
    safe(data.site.display_name@) + " / "@ + safe(data.environment.display_name@)
        + "\n  environment id: "@ + safe(data.environment.reference.environment_id@)
        + "\n  site id: "@ + safe(data.environment.reference.site_id@) + "\n  kind: "@
        + kind_label(data.environment.kind) + "\n  provider kind: "@ + optional_text(
        opt_chars(data.environment.provider_kind),
    ) + "\n  domain: "@ + optional_text(opt_chars(data.environment.primary_domain))
        + "\n  capabilities:\n"@ + capability_lines(data.capabilities@)
}

fn push_capability_line(out: &mut String, capability: &Capability)
    ensures
        final(out)@ == old(out)@ + capability_line(*capability),
{
    let ghost start = out@;
    push_str(out, "    ");
    let name = terminal_safe(capability.name.as_str());
    push_str(out, name.as_str());
    push_str(out, " v");
    push_decimal(out, capability.version as u64);
    push_str(out, ": ");
    if capability.available {
        push_str(out, "available");
    } else if capability.supported {
        push_str(out, "unavailable");
    } else {
        push_str(out, "unsupported");
    }
    push_str(out, "\n");
    assert(out@ =~= start + capability_line(*capability));
}

pub fn render_environment(data: &MachineEnvironmentShowData) -> (r: String)
    ensures
        r@ == environment_text(*data),
{
    let mut out = terminal_safe(data.site.display_name.as_str());
    push_str(&mut out, " / ");
    let name = terminal_safe(data.environment.display_name.as_str());
    push_str(&mut out, name.as_str());
    push_str(&mut out, "\n  environment id: ");
    let environment_id = terminal_safe(data.environment.reference.environment_id.as_str());
    push_str(&mut out, environment_id.as_str());
    push_str(&mut out, "\n  site id: ");
    let site_id = terminal_safe(data.environment.reference.site_id.as_str());
    push_str(&mut out, site_id.as_str());
    push_str(&mut out, "\n  kind: ");
    push_str(&mut out, environment_kind_label(data.environment.kind));
    push_str(&mut out, "\n  provider kind: ");
    let provider_kind = safe_optional_string(&data.environment.provider_kind);
    push_str(&mut out, provider_kind.as_str());
    push_str(&mut out, "\n  domain: ");
    let domain = safe_optional_string(&data.environment.primary_domain);
    push_str(&mut out, domain.as_str());
    push_str(&mut out, "\n  capabilities:\n");
    let ghost header = out@;
    let ghost capabilities = data.capabilities@;
    let mut i: usize = 0;
    assert(capabilities.take(0) =~= Seq::<Capability>::empty());
    while i < data.capabilities.len()
        invariant
            i <= capabilities.len(),
            capabilities == data.capabilities@,
            out@ == header + capability_lines(capabilities.take(i as int)),
        decreases capabilities.len() - i,
    {
        push_capability_line(&mut out, &data.capabilities[i]);
        assert(capabilities.take(i + 1).drop_last() =~= capabilities.take(i as int));
        assert(out@ =~= header + capability_lines(capabilities.take(i + 1)));
        i = i + 1;
    }
    assert(capabilities.take(capabilities.len() as int) =~= capabilities);
    assert(out@ =~= environment_text(*data));
    out
}

// ---------------------------------------------------------------------------------------------
// Inventory
// ---------------------------------------------------------------------------------------------
pub open spec fn component_noun(kind: WordPressComponentKind) -> Seq<char> {
    match kind {
        WordPressComponentKind::Plugin => "plugins"@,
        WordPressComponentKind::Theme => "themes"@,
    }
}

pub open spec fn installation_line(i: WordPressComponentInstallation) -> Seq<char> {
    "      "@ + safe(i.environment.environment_id@) + "  version="@ + safe(i.installed_version@)
        + "  status="@ + safe(i.status@) + "  update="@ + optional_text(
        opt_chars(i.available_version),
    ) + (if i.installed_version_vulnerable {
        "  vulnerable"@
    } else {
        Seq::empty()
    }) + "\n"@
}

pub open spec fn installation_lines(installations: Seq<WordPressComponentInstallation>) -> Seq<
    char,
>
    decreases installations.len(),
{
    if installations.len() == 0 {
        Seq::empty()
    } else {
        installation_lines(installations.drop_last()) + installation_line(installations.last())
    }
}

pub open spec fn component_head(c: WordPressComponent) -> Seq<char> {
    "  "@ + safe(c.title@) + " ("@ + safe(c.slug@) + ")\n    environments: "@ + decimal(
        c.environment_count as nat,
    ) + "  updates: "@ + decimal(c.update_count as nat) + "  vulnerable installs: "@ + yes_no(
        has_vulnerable_install(c),
    ) + "\n"@
}

pub open spec fn component_block(c: WordPressComponent, details: bool) -> Seq<char> {
    component_head(c) + (if details {
        installation_lines(c.installations@)
    } else {
        Seq::empty()
    })
}

pub open spec fn component_blocks(components: Seq<WordPressComponent>, details: bool) -> Seq<
    char,
>
    decreases components.len(),
{
    if components.len() == 0 {
        Seq::empty()
    } else {
        component_blocks(components.drop_last(), details) + component_block(
            components.last(),
            details,
        )
    }
}

/// The human listing of an inventory, with installation lines when `details` is set.
pub open spec fn inventory_text(inventory: MachineInventoryData, details: bool) -> Seq<char> {
    "WordPress "@ + component_noun(inventory.kind) + ": "@ + decimal(inventory.matched_count as nat)
        + " matched ("@ + decimal(inventory.provider_total as nat) + " provider total)\n"@ + (
    match inventory.refreshed_at {
        Some(at) => "Refreshed: "@ + safe(at@) + "\n"@,
        None => Seq::empty(),
    }) + "\n"@ + component_blocks(inventory.components@, details)
}

fn any_vulnerable(installations: &Vec<WordPressComponentInstallation>) -> (r: bool)
    ensures
        r == exists|i: int|
            0 <= i < installations@.len() && #[trigger] installations@[i].installed_version_vulnerable,
{
    let mut i: usize = 0;
    while i < installations.len()
        invariant
            i <= installations@.len(),
            forall|k: int| 0 <= k < i ==> !(#[trigger] installations@[k].installed_version_vulnerable),
        decreases installations@.len() - i,
    {
        if installations[i].installed_version_vulnerable {
            return true;
        }
        i = i + 1;
    }
    false
}

fn push_installation_line(out: &mut String, installation: &WordPressComponentInstallation)
    ensures
        final(out)@ == old(out)@ + installation_line(*installation),
{
    let ghost start = out@;
    push_str(out, "      ");
    let id = terminal_safe(installation.environment.environment_id.as_str());
    push_str(out, id.as_str());
    push_str(out, "  version=");
    let version = terminal_safe(installation.installed_version.as_str());
    push_str(out, version.as_str());
    push_str(out, "  status=");
    let status = terminal_safe(installation.status.as_str());
    push_str(out, status.as_str());
    push_str(out, "  update=");
    let update = safe_optional_string(&installation.available_version);
    push_str(out, update.as_str());
    if installation.installed_version_vulnerable {
        push_str(out, "  vulnerable");
    }
    push_str(out, "\n");
    assert(out@ =~= start + installation_line(*installation));
}

fn push_component_head(out: &mut String, component: &WordPressComponent)
    ensures
        final(out)@ == old(out)@ + component_head(*component),
{
    let ghost start = out@;
    push_str(out, "  ");
    let title = terminal_safe(component.title.as_str());
    push_str(out, title.as_str());
    push_str(out, " (");
    let slug = terminal_safe(component.slug.as_str());
    push_str(out, slug.as_str());
    push_str(out, ")\n    environments: ");
    push_decimal(out, component.environment_count);
    push_str(out, "  updates: ");
    push_decimal(out, component.update_count);
    push_str(out, "  vulnerable installs: ");
    if any_vulnerable(&component.installations) {
        push_str(out, "yes");
    } else {
        push_str(out, "no");
    }
    push_str(out, "\n");
    assert(out@ =~= start + component_head(*component));
}

fn push_component_block(out: &mut String, component: &WordPressComponent, details: bool)
    ensures
        final(out)@ == old(out)@ + component_block(*component, details),
{
    let ghost start = out@;
    push_component_head(out, component);
    let ghost head = out@;
    if details {
        let ghost installations = component.installations@;
        let mut i: usize = 0;
        assert(installations.take(0) =~= Seq::<WordPressComponentInstallation>::empty());
        while i < component.installations.len()
            invariant
                i <= installations.len(),
                installations == component.installations@,
                out@ == head + installation_lines(installations.take(i as int)),
            decreases installations.len() - i,
        {
            push_installation_line(out, &component.installations[i]);
            assert(installations.take(i + 1).drop_last() =~= installations.take(i as int));
            assert(out@ =~= head + installation_lines(installations.take(i + 1)));
            i = i + 1;
        }
        assert(installations.take(installations.len() as int) =~= installations);
    }
    assert(out@ =~= start + component_block(*component, details));
}

pub fn render_inventory(inventory: &MachineInventoryData, details: bool) -> (r: String)
    ensures
        r@ == inventory_text(*inventory, details),
{
    let mut out = "WordPress ".to_owned();
    match inventory.kind {
        WordPressComponentKind::Plugin => push_str(&mut out, "plugins"),
        WordPressComponentKind::Theme => push_str(&mut out, "themes"),
    }
    push_str(&mut out, ": ");
    push_decimal(&mut out, inventory.matched_count as u64);
    push_str(&mut out, " matched (");
    push_decimal(&mut out, inventory.provider_total);
    push_str(&mut out, " provider total)\n");
    match &inventory.refreshed_at {
        Some(at) => {
            push_str(&mut out, "Refreshed: ");
            let safe_at = terminal_safe(at.as_str());
            push_str(&mut out, safe_at.as_str());
            push_str(&mut out, "\n");
        },
        None => {},
    }
    push_str(&mut out, "\n");
    let ghost header = out@;
    let ghost components = inventory.components@;
    let mut i: usize = 0;
    assert(components.take(0) =~= Seq::<WordPressComponent>::empty());
    while i < inventory.components.len()
        invariant
            i <= components.len(),
            components == inventory.components@,
            out@ == header + component_blocks(components.take(i as int), details),
        decreases components.len() - i,
    {
        push_component_block(&mut out, &inventory.components[i], details);
        assert(components.take(i + 1).drop_last() =~= components.take(i as int));
        assert(out@ =~= header + component_blocks(components.take(i + 1), details));
        i = i + 1;
    }
    assert(components.take(components.len() as int) =~= components);
    assert(out@ =~= inventory_text(*inventory, details));
    out
}

// ---------------------------------------------------------------------------------------------
// Remote command results
// ---------------------------------------------------------------------------------------------
/// `i` is the first selected target for the environment.
pub open spec fn is_first_target(
    targets: Seq<ResolvedEnvironment>,
    environment: EnvironmentRef,
    i: int,
) -> bool {
    &&& 0 <= i < targets.len()
    &&& same_environment(targets[i].environment.reference, environment)
    &&& forall|k: int|
        0 <= k < i ==> !same_environment(#[trigger] targets[k].environment.reference, environment)
}

/// The heading of a result: the selected site and environment names, or else the raw id.
pub open spec fn result_heading(targets: Seq<ResolvedEnvironment>, result: TargetExecution) -> Seq<
    char,
> {
    if exists|i: int| is_first_target(targets, result.environment, i) {
        let i = choose|i: int| is_first_target(targets, result.environment, i);
        safe(targets[i].site.display_name@) + " / "@ + safe(targets[i].environment.display_name@)
    } else {
        result.environment.environment_id@
    }
}

pub open spec fn state_label(state: ExecutionState) -> Seq<char> {
    match state {
        ExecutionState::Succeeded => "succeeded"@,
        ExecutionState::Failed => "failed"@,
        ExecutionState::TimedOut => "timed out"@,
        ExecutionState::Cancelled => "cancelled"@,
        ExecutionState::Skipped => "skipped"@,
    }
}

/// Captured data as shown: text is escaped but keeps its lines; base64 is shown as it is.
pub open spec fn shown_data(stream: CapturedStream) -> Seq<char> {
    if stream.encoding == CaptureEncoding::Text {
        escape_terminal(stream.data@, true)
    } else {
        stream.data@
    }
}

/// One captured stream, omitted when nothing was captured.
pub open spec fn stream_text(label: Seq<char>, stream: CapturedStream) -> Seq<char> {
    if stream.captured_bytes == 0 && !stream.truncated {
        Seq::empty()
    } else {
        let data = shown_data(stream);
        label + (if stream.encoding == CaptureEncoding::Base64 {
            " (base64)"@
        } else {
            Seq::empty()
        }) + (if stream.truncated {
            " (truncated)"@
        } else {
            Seq::empty()
        }) + ":\n"@ + data + (if data.len() > 0 && data.last() == '\n' {
            Seq::empty()
        } else {
            "\n"@
        })
    }
}

/// The first line of a target's result.
pub open spec fn result_status_line(targets: Seq<ResolvedEnvironment>, result: TargetExecution) -> Seq<
    char,
> {
    "== "@ + result_heading(targets, result) + " ("@ + safe(result.environment.environment_id@)
        + ") ["@ + state_label(result.state) + (match result.exit_code {
        Some(code) => ", exit "@ + signed_decimal(code as int),
        None => Seq::empty(),
    }) + "] ==\n"@
}

pub open spec fn failure_text(result: TargetExecution) -> Seq<char> {
    match result.failure {
        Some(f) => "failure: "@ + safe(f.message@) + "\n"@,
        None => Seq::empty(),
    }
}

/// The human block of one target's result.
pub open spec fn result_block(targets: Seq<ResolvedEnvironment>, result: TargetExecution) -> Seq<
    char,
> {
    result_status_line(targets, result) + stream_text("stdout"@, result.stdout) + stream_text("stderr"@, result.stderr)
        + failure_text(result) + "\n"@
}

fn push_captured_stream(out: &mut String, label: &str, stream: &CapturedStream)
    ensures
        final(out)@ == old(out)@ + stream_text(label@, *stream),
{
    let ghost start = out@;
    if stream.captured_bytes == 0 && !stream.truncated {
        assert(out@ =~= start + stream_text(label@, *stream));
        return;
    }
    push_str(out, label);
    match stream.encoding {
        CaptureEncoding::Base64 => push_str(out, " (base64)"),
        CaptureEncoding::Text => {},
    }
    if stream.truncated {
        push_str(out, " (truncated)");
    }
    push_str(out, ":\n");
    let data = match stream.encoding {
        CaptureEncoding::Text => terminal_output_safe(stream.data.as_str()),
        CaptureEncoding::Base64 => stream.data.clone(),
    };
    push_str(out, data.as_str());
    let chars = chars_of(data.as_str());
    if !(chars.len() > 0 && chars[chars.len() - 1] == '\n') {
        push_str(out, "\n");
    }
    assert(out@ =~= start + stream_text(label@, *stream));
}

fn find_target(targets: &Vec<ResolvedEnvironment>, environment: &EnvironmentRef) -> (r: Option<
    usize,
>)
    ensures
        match r {
            Some(i) => is_first_target(targets@, *environment, i as int),
            None => !exists|i: int| is_first_target(targets@, *environment, i),
        },
{
    let mut j: usize = 0;
    while j < targets.len()
        invariant
            j <= targets@.len(),
            forall|k: int|
                0 <= k < j ==> !same_environment(
                    #[trigger] targets@[k].environment.reference,
                    *environment,
                ),
        decreases targets@.len() - j,
    {
        if targets[j].environment.reference.same(environment) {
            return Some(j);
        }
        j = j + 1;
    }
    proof {
        assert forall|i: int| !is_first_target(targets@, *environment, i) by {
            if 0 <= i < targets@.len() {
                assert(!same_environment(targets@[i].environment.reference, *environment));
            }
        }
    }
    None
}

fn heading_text(targets: &Vec<ResolvedEnvironment>, result: &TargetExecution) -> (r: String)
    ensures
        r@ == result_heading(targets@, *result),
{
    match find_target(targets, &result.environment) {
        Some(i) => {
            proof {
                let c = choose|c: int| is_first_target(targets@, result.environment, c);
                if c < i {
                    assert(!same_environment(targets@[c].environment.reference, result.environment));
                } else if c > i {
                    assert(!same_environment(targets@[i as int].environment.reference, result.environment));
                }
            }
            let mut out = terminal_safe(targets[i].site.display_name.as_str());
            push_str(&mut out, " / ");
            let name = terminal_safe(targets[i].environment.display_name.as_str());
            push_str(&mut out, name.as_str());
            out
        },
        None => result.environment.environment_id.as_str().to_owned(),
    }
}

fn status_line_text(targets: &Vec<ResolvedEnvironment>, result: &TargetExecution) -> (r: String)
    ensures
        r@ == result_status_line(targets@, *result),
{
    let mut out = "== ".to_owned();
    let heading = heading_text(targets, result);
    push_str(&mut out, heading.as_str());
    push_str(&mut out, " (");
    let id = terminal_safe(result.environment.environment_id.as_str());
    push_str(&mut out, id.as_str());
    push_str(&mut out, ") [");
    push_str(&mut out, execution_state_label(result.state));
    match result.exit_code {
        Some(code) => {
            push_str(&mut out, ", exit ");
            push_signed_decimal(&mut out, code as i64);
        },
        None => {},
    }
    push_str(&mut out, "] ==\n");
    assert(out@ =~= result_status_line(targets@, *result));
    out
}

fn result_block_text(targets: &Vec<ResolvedEnvironment>, result: &TargetExecution) -> (r: String)
    ensures
        r@ == result_block(targets@, *result),
{
    let mut out = status_line_text(targets, result);
    push_captured_stream(&mut out, "stdout", &result.stdout);
    push_captured_stream(&mut out, "stderr", &result.stderr);
    let ghost before_failure = out@;
    match &result.failure {
        Some(f) => {
            push_str(&mut out, "failure: ");
            let message = terminal_safe(f.message.as_str());
            push_str(&mut out, message.as_str());
            push_str(&mut out, "\n");
        },
        None => {},
    }
    assert(out@ =~= before_failure + failure_text(*result));
    push_str(&mut out, "\n");
    assert(out@ =~= result_block(targets@, *result));
    out
}

/// The human blocks of a batch, one per result in order.
pub fn render_batch_report(results: &[TargetExecution], selection: &EnvironmentSelection) -> (r: Vec<
    String,
>)
    ensures
        r@.len() == results@.len(),
        forall|k: int|
            0 <= k < results@.len() ==> (#[trigger] r@[k])@ == result_block(
                selection.targets@,
                results@[k],
            ),
{
    let mut out: Vec<String> = Vec::new();
    let mut i: usize = 0;
    while i < results.len()
        invariant
            i <= results@.len(),
            out@.len() == i,
            forall|k: int|
                0 <= k < i ==> (#[trigger] out@[k])@ == result_block(
                    selection.targets@,
                    results@[k],
                ),
        decreases results@.len() - i,
    {
        let block = result_block_text(&selection.targets, &results[i]);
        out.push(block);
        i = i + 1;
    }
    out
}

// ---------------------------------------------------------------------------------------------
// Profiles
// ---------------------------------------------------------------------------------------------
/// A secret-free view of one profile.
#[derive(Debug)]
pub struct ProfileView {
    pub reference: ProviderProfileRef,
    pub company_id: OpaqueId,
    pub credential_source: CredentialSource,
    pub credential_expires_at: Option<String>,
    pub is_default: bool,
}

impl ProfileView {
    /// The view of `profile`; it is the default when `default` names it.
    pub fn new(profile: ProfileRecord, default: Option<&ProviderProfileRef>) -> (r: ProfileView)
        ensures
            r.reference.provider == profile.provider,
            r.reference.profile == profile.name,
            r.company_id == profile.company_id,
            r.credential_source == profile.credential_source,
            r.credential_expires_at == profile.credential_expires_at,
            r.is_default == (default matches Some(d) && same_ref(*d, r.reference)),
    {
        let reference = profile.reference();
        let is_default = match default {
            Some(d) => same_reference(d, &reference),
            None => false,
        };
        ProfileView {
            reference,
            company_id: profile.company_id,
            credential_source: profile.credential_source,
            credential_expires_at: profile.credential_expires_at,
            is_default,
        }
    }
}

/// The listing of every profile and the default.
#[derive(Debug)]
pub struct ProfileListOutput {
    pub default_profile: Option<ProviderProfileRef>,
    pub profiles: Vec<ProfileView>,
}

/// The view of the `k`-th profile of a configuration.
pub open spec fn viewed_as(v: ProfileView, p: ProfileRecord, default: Option<ProviderProfileRef>) -> bool {
    &&& v.reference.provider == p.provider
    &&& v.reference.profile == p.name
    &&& v.company_id == p.company_id
    &&& v.credential_source == p.credential_source
    &&& v.credential_expires_at == p.credential_expires_at
    &&& v.is_default == (default matches Some(d) && same_ref(d, v.reference))
}

/// View every profile of a configuration, in order, marking the default.
pub fn profile_list(config: ProfileConfig) -> (r: ProfileListOutput)
    ensures
        r.default_profile == config.default_profile,
        r.profiles@.len() == config.profiles@.len(),
        forall|k: int|
            0 <= k < config.profiles@.len() ==> viewed_as(
                #[trigger] r.profiles@[k],
                config.profiles@[k],
                config.default_profile,
            ),
{
    let default_profile = config.default_profile;
    let profiles = config.profiles;
    let mut views: Vec<ProfileView> = Vec::new();
    let mut i: usize = 0;
    while i < profiles.len()
        invariant
            i <= profiles@.len(),
            views@.len() == i,
            forall|k: int|
                0 <= k < i ==> viewed_as(#[trigger] views@[k], profiles@[k], default_profile),
        decreases profiles@.len() - i,
    {
        let view = ProfileView::new(profiles[i].clone(), default_profile.as_ref());
        views.push(view);
        i = i + 1;
    }
    ProfileListOutput { default_profile, profiles: views }
}

pub open spec fn source_label(source: CredentialSource) -> Seq<char> {
    match source {
        CredentialSource::Keyring => "OS credential store"@,
        CredentialSource::Environment { variable } => "environment: "@ + safe(variable@),
    }
}

pub fn credential_source_label(source: &CredentialSource) -> (r: String)
    ensures
        r@ == source_label(*source),
{
    match source {
        CredentialSource::Keyring => "OS credential store".to_owned(),
        CredentialSource::Environment { variable } => {
            let mut out = "environment: ".to_owned();
            let name = terminal_safe(variable.as_str());
            push_str(&mut out, name.as_str());
            out
        },
    }
}

pub open spec fn profile_line(v: ProfileView) -> Seq<char> {
    "  "@ + safe(reference_text(v.reference)) + (if v.is_default {
        " (default)"@
    } else {
        Seq::empty()
    }) + "  company="@ + safe(v.company_id@) + "  credential="@ + source_label(
        v.credential_source,
    ) + "\n"@
}

pub open spec fn profile_lines(views: Seq<ProfileView>) -> Seq<char>
    decreases views.len(),
{
    if views.len() == 0 {
        Seq::empty()
    } else {
        profile_lines(views.drop_last()) + profile_line(views.last())
    }
}

/// The human listing of profiles.
pub open spec fn profile_list_text(views: Seq<ProfileView>) -> Seq<char> {
    if views.len() == 0 {
        "No provider profiles are configured.\nLog in with `hb login kinsta <name>`.\n"@
    } else {
        "Provider profiles\n\n"@ + profile_lines(views)
    }
}

fn push_profile_line(out: &mut String, view: &ProfileView)
    ensures
        final(out)@ == old(out)@ + profile_line(*view),
{
    let ghost start = out@;
    push_str(out, "  ");
    let reference = format_profile_ref(&view.reference);
    let safe_reference = terminal_safe(reference.as_str());
    push_str(out, safe_reference.as_str());
    if view.is_default {
        push_str(out, " (default)");
    }
    push_str(out, "  company=");
    let company = terminal_safe(view.company_id.as_str());
    push_str(out, company.as_str());
    push_str(out, "  credential=");
    let label = credential_source_label(&view.credential_source);
    push_str(out, label.as_str());
    push_str(out, "\n");
    assert(out@ =~= start + profile_line(*view));
}

pub fn render_profile_list(views: &[ProfileView]) -> (r: String)
    ensures
        r@ == profile_list_text(views@),
{
    if views.len() == 0 {
        return "No provider profiles are configured.\nLog in with `hb login kinsta <name>`.\n".to_owned();
    }
    let mut out = "Provider profiles\n\n".to_owned();
    let ghost header = out@;
    let mut i: usize = 0;
    assert(views@.take(0) =~= Seq::<ProfileView>::empty());
    while i < views.len()
        invariant
            i <= views@.len(),
            header == "Provider profiles\n\n"@,
            out@ == header + profile_lines(views@.take(i as int)),
        decreases views@.len() - i,
    {
        push_profile_line(&mut out, &views[i]);
        assert(views@.take(i + 1).drop_last() =~= views@.take(i as int));
        assert(out@ =~= header + profile_lines(views@.take(i + 1)));
        i = i + 1;
    }
    assert(views@.take(views@.len() as int) =~= views@);
    out
}

/// The human result of a profile command, led by `action`.
pub open spec fn profile_result_text(action: Seq<char>, v: ProfileView) -> Seq<char> {
    action + ": "@ + safe(reference_text(v.reference)) + "\n  company: "@ + safe(v.company_id@)
        + "\n  credential: "@ + source_label(v.credential_source) + "\n  default: "@ + yes_no(
        v.is_default,
    ) + "\n"@
}

pub fn render_profile_result(action: &str, view: &ProfileView) -> (r: String)
    ensures
        r@ == profile_result_text(action@, *view),
{
    let mut out = action.to_owned();
    push_str(&mut out, ": ");
    let reference = format_profile_ref(&view.reference);
    let safe_reference = terminal_safe(reference.as_str());
    push_str(&mut out, safe_reference.as_str());
    push_str(&mut out, "\n  company: ");
    let company = terminal_safe(view.company_id.as_str());
    push_str(&mut out, company.as_str());
    push_str(&mut out, "\n  credential: ");
    let label = credential_source_label(&view.credential_source);
    push_str(&mut out, label.as_str());
    push_str(&mut out, "\n  default: ");
    if view.is_default {
        push_str(&mut out, "yes");
    } else {
        push_str(&mut out, "no");
    }
    push_str(&mut out, "\n");
    assert(out@ =~= profile_result_text(action@, *view));
    out
}

/// `lead`, the escaped reference, then `tail`.
pub fn reference_sentence(lead: &str, reference: &ProviderProfileRef, tail: &str) -> (r: String)
    ensures
        r@ == lead@ + safe(reference_text(*reference)) + tail@,
{
    let mut out = lead.to_owned();
    let text = format_profile_ref(reference);
    let safe_text = terminal_safe(text.as_str());
    push_str(&mut out, safe_text.as_str());
    push_str(&mut out, tail);
    out
}

/// The stderr lines of warnings.
pub open spec fn warning_lines(warnings: Seq<MachineWarning>) -> Seq<char>
    decreases warnings.len(),
{
    if warnings.len() == 0 {
        Seq::empty()
    } else {
        warning_lines(warnings.drop_last()) + "warning: "@ + warnings.last().message@ + "\n"@
    }
}

pub fn render_warnings(warnings: &[MachineWarning]) -> (r: String)
    ensures
        r@ == warning_lines(warnings@),
{
    let mut out = String::new();
    let mut i: usize = 0;
    assert(warnings@.take(0) =~= Seq::<MachineWarning>::empty());
    while i < warnings.len()
        invariant
            i <= warnings@.len(),
            out@ == warning_lines(warnings@.take(i as int)),
        decreases warnings@.len() - i,
    {
        let ghost before = out@;
        push_str(&mut out, "warning: ");
        push_str(&mut out, warnings[i].message.as_str());
        push_str(&mut out, "\n");
        assert(warnings@.take(i + 1).drop_last() =~= warnings@.take(i as int));
        assert(out@ =~= warning_lines(warnings@.take(i + 1)));
        i = i + 1;
    }
    assert(warnings@.take(warnings@.len() as int) =~= warnings@);
    out
}

/// The refusal when a profile removal is declined.
pub fn removal_not_confirmed() -> (r: AppError)
    ensures
        plain_error(r@, ErrorCode::PolicyDenied, "profile removal was not confirmed"@),
{
    AppError::new(ErrorCode::PolicyDenied, "profile removal was not confirmed")
}

// ---------------------------------------------------------------------------------------------
// Confirming a broad selection
// ---------------------------------------------------------------------------------------------
/// What a remote command needs before it runs on a selection.
#[derive(Debug, Clone, Copy, PartialEq, Eq, Structural)]
pub struct SelectionConfirmation {
    /// Show the selected environments on stderr.
    pub show_preview: bool,
    /// Ask the operator to confirm.
    pub ask: bool,
}

/// An exact selection needs nothing; a broad one is previewed to people and must be confirmed
/// unless `--yes` was given.
pub fn selection_confirmation(broad: bool, machine: bool, yes: bool) -> (r: SelectionConfirmation)
    ensures
        r.show_preview == (broad && !machine),
        r.ask == (broad && !yes),
{
    SelectionConfirmation { show_preview: broad && !machine, ask: broad && !yes }
}

pub open spec fn preview_line(t: ResolvedEnvironment) -> Seq<char> {
    "  "@ + safe(t.site.display_name@) + " / "@ + safe(t.environment.display_name@) + " ("@ + safe(
        t.environment.reference.environment_id@,
    ) + ")\n"@
}

pub open spec fn preview_lines(targets: Seq<ResolvedEnvironment>) -> Seq<char>
    decreases targets.len(),
{
    if targets.len() == 0 {
        Seq::empty()
    } else {
        preview_lines(targets.drop_last()) + preview_line(targets.last())
    }
}

/// The preview of a selection.
pub open spec fn preview_text(targets: Seq<ResolvedEnvironment>) -> Seq<char> {
    "Selected "@ + decimal(targets.len()) + " environment(s):\n"@ + preview_lines(targets)
}

fn push_preview_line(out: &mut String, target: &ResolvedEnvironment)
    ensures
        final(out)@ == old(out)@ + preview_line(*target),
{
    let ghost start = out@;
    push_str(out, "  ");
    let site = terminal_safe(target.site.display_name.as_str());
    push_str(out, site.as_str());
    push_str(out, " / ");
    let name = terminal_safe(target.environment.display_name.as_str());
    push_str(out, name.as_str());
    push_str(out, " (");
    let id = terminal_safe(target.environment.reference.environment_id.as_str());
    push_str(out, id.as_str());
    push_str(out, ")\n");
    assert(out@ =~= start + preview_line(*target));
}

pub fn selection_preview(selection: &EnvironmentSelection) -> (r: String)
    ensures
        r@ == preview_text(selection.targets@),
{
    let mut out = "Selected ".to_owned();
    push_decimal(&mut out, selection.targets.len() as u64);
    push_str(&mut out, " environment(s):\n");
    let ghost header = out@;
    let ghost targets = selection.targets@;
    let mut i: usize = 0;
    assert(targets.take(0) =~= Seq::<ResolvedEnvironment>::empty());
    while i < selection.targets.len()
        invariant
            i <= targets.len(),
            targets == selection.targets@,
            header == "Selected "@ + decimal(targets.len()) + " environment(s):\n"@,
            out@ == header + preview_lines(targets.take(i as int)),
        decreases targets.len() - i,
    {
        push_preview_line(&mut out, &selection.targets[i]);
        assert(targets.take(i + 1).drop_last() =~= targets.take(i as int));
        assert(out@ =~= header + preview_lines(targets.take(i + 1)));
        i = i + 1;
    }
    assert(targets.take(targets.len() as int) =~= targets);
    out
}

/// The question asked before a remote command runs on `count` environments.
pub fn run_prompt(count: usize) -> (r: String)
    ensures
        r@ == "Run the remote command on "@ + decimal(count as nat) + " environment(s)?"@,
{
    let mut out = "Run the remote command on ".to_owned();
    push_decimal(&mut out, count as u64);
    push_str(&mut out, " environment(s)?");
    out
}

/// The refusal when a remote command is declined.
pub fn execution_not_confirmed() -> (r: AppError)
    ensures
        plain_error(r@, ErrorCode::PolicyDenied, "remote command execution was not confirmed"@),
{
    AppError::new(ErrorCode::PolicyDenied, "remote command execution was not confirmed")
}

} // verus!
