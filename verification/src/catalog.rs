//! Resolving exact catalog identifiers and selecting SSH targets from a catalog snapshot.
//!
//! Repeated selectors of one category are ORed; different categories are ANDed.
use crate::cli::{kind_arg_name, EnvironmentKindArg, SshRunArgs};
use crate::kinsta::normalized_kind;
use crate::render::kind_label;
use crate::error::{hinted_error, plain_error, AppError, AppErrorView, ErrorCode};
use crate::model::{valid_opaque_id, EnvironmentKind, OpaqueId};
use crate::provider::{
    same_site_summary, CatalogSite, CatalogSnapshot, EnvironmentSummary, SiteSummary,
};
use crate::text::{
    ascii_lower_seq, byte_len, contains_control, has_control, has_surrounding_whitespace, str_eq,
    surrounded_by_whitespace, utf8_len,
};
use vstd::prelude::*;

verus! {

broadcast use vstd::string::group_string_axioms;

/// A selected environment together with its site.
#[derive(Debug)]
pub struct ResolvedEnvironment {
    pub site: SiteSummary,
    pub environment: EnvironmentSummary,
}

impl Clone for ResolvedEnvironment {
    fn clone(&self) -> (r: Self)
        ensures
            same_site_summary(r.site, self.site),
            r.environment == self.environment,
    {
        ResolvedEnvironment { site: self.site.clone(), environment: self.environment.clone() }
    }
}

/// The environments an `ssh run` will target, and whether the selection was broad.
#[derive(Debug)]
pub struct EnvironmentSelection {
    pub targets: Vec<ResolvedEnvironment>,
    pub broad: bool,
}

// ---------------------------------------------------------------------------------------------
// Selector syntax
// ---------------------------------------------------------------------------------------------
pub open spec fn opaque_selector_error() -> AppErrorView {
    AppErrorView {
        code: ErrorCode::InvalidInput,
        message: "provider ID selector is empty or malformed"@,
        hint: None,
    }
}

pub open spec fn label_selector_error() -> AppErrorView {
    AppErrorView {
        code: ErrorCode::InvalidInput,
        message: "site label selector is empty or malformed"@,
        hint: None,
    }
}

/// A label selector: non-empty, at most 512 bytes, unpadded and control-free.
pub open spec fn valid_label_selector(value: Seq<char>) -> bool {
    value.len() > 0 && utf8_len(value) <= 512 && !has_surrounding_whitespace(value) && !has_control(
        value,
    )
}

/// An exact identifier selector must be a valid provider identifier.
pub fn validate_opaque_selector(value: &str) -> (r: Result<(), AppError>)
    ensures
        r is Ok <==> valid_opaque_id(value@),
        r matches Err(e) ==> e@ == opaque_selector_error(),
{
    match OpaqueId::new(value) {
        Ok(_) => Ok(()),
        Err(_) => Err(AppError::new(ErrorCode::InvalidInput, "provider ID selector is empty or malformed")),
    }
}

pub fn validate_label_selector(value: &str) -> (r: Result<(), AppError>)
    ensures
        r is Ok <==> valid_label_selector(value@),
        r matches Err(e) ==> e@ == label_selector_error(),
{
    if value.is_empty() || byte_len(value) > 512 || surrounded_by_whitespace(value)
        || contains_control(value) {
        return Err(AppError::new(ErrorCode::InvalidInput, "site label selector is empty or malformed"));
    }
    Ok(())
}

pub open spec fn texts(v: Seq<String>) -> Seq<Seq<char>> {
    v.map_values(|s: String| s@)
}

/// At least one selector category is used.
pub open spec fn has_selector(a: SshRunArgs) -> bool {
    a.all || a.environment_ids@.len() > 0 || a.site_ids@.len() > 0 || a.kind@.len() > 0
        || a.label@.len() > 0
}

/// Broad selectors can reach environments the user did not name one by one.
pub open spec fn is_broad(a: SshRunArgs) -> bool {
    a.all || a.site_ids@.len() > 0 || a.kind@.len() > 0 || a.label@.len() > 0
}

pub open spec fn all_valid_ids(ids: Seq<String>) -> bool {
    forall|i: int| 0 <= i < ids.len() ==> valid_opaque_id(#[trigger] ids[i]@)
}

pub open spec fn all_valid_labels(labels: Seq<String>) -> bool {
    forall|i: int| 0 <= i < labels.len() ==> valid_label_selector(#[trigger] labels[i]@)
}

/// Why the selectors are unusable before any catalog is fetched, if they are.
pub open spec fn selection_syntax_error(a: SshRunArgs) -> Option<AppErrorView> {
    if !has_selector(a) {
        Some(
            AppErrorView {
                code: ErrorCode::InvalidInput,
                message: "at least one SSH target selector is required"@,
                hint: Some(
                    "Use --environment-id, --site-id, --kind, --label, or the deliberate --all selector."@,
                ),
            },
        )
    } else if !all_valid_ids(a.environment_ids@) || !all_valid_ids(a.site_ids@) {
        Some(opaque_selector_error())
    } else if !all_valid_labels(a.label@) {
        Some(label_selector_error())
    } else {
        None
    }
}

fn check_ids(ids: &Vec<String>) -> (r: Result<(), AppError>)
    ensures
        r is Ok <==> all_valid_ids(ids@),
        r matches Err(e) ==> e@ == opaque_selector_error(),
{
    let mut i: usize = 0;
    while i < ids.len()
        invariant
            i <= ids@.len(),
            forall|k: int| 0 <= k < i ==> valid_opaque_id(#[trigger] ids@[k]@),
        decreases ids@.len() - i,
    {
        validate_opaque_selector(ids[i].as_str())?;
        i = i + 1;
    }
    Ok(())
}

fn check_labels(labels: &Vec<String>) -> (r: Result<(), AppError>)
    ensures
        r is Ok <==> all_valid_labels(labels@),
        r matches Err(e) ==> e@ == label_selector_error(),
{
    let mut i: usize = 0;
    while i < labels.len()
        invariant
            i <= labels@.len(),
            forall|k: int| 0 <= k < i ==> valid_label_selector(#[trigger] labels@[k]@),
        decreases labels@.len() - i,
    {
        validate_label_selector(labels[i].as_str())?;
        i = i + 1;
    }
    Ok(())
}

/// Check that some selector is given and that every selector is well formed.
pub fn validate_selection_syntax(arguments: &SshRunArgs) -> (r: Result<(), AppError>)
    ensures
        match selection_syntax_error(*arguments) {
            None => r is Ok,
            Some(e) => r matches Err(err) && err@ == e,
        },
{
    let any_selector = arguments.all || arguments.environment_ids.len() > 0 || arguments.site_ids.len() > 0
        || arguments.kind.len() > 0 || arguments.label.len() > 0;
    if !any_selector {
        return Err(
            AppError::new(
                ErrorCode::InvalidInput,
                "at least one SSH target selector is required",
            ).with_hint(
                "Use --environment-id, --site-id, --kind, --label, or the deliberate --all selector.",
            ),
        );
    }
    check_ids(&arguments.environment_ids)?;
    check_ids(&arguments.site_ids)?;
    check_labels(&arguments.label)?;
    Ok(())
}

/// A broad selection run by a script needs `--yes` before any profile or network access.
pub fn require_broad_confirmation(interactive: bool, arguments: &SshRunArgs) -> (r: Result<
    (),
    AppError,
>)
    ensures
        r is Err <==> (!interactive && is_broad(*arguments) && !arguments.yes),
        r matches Err(e) ==> hinted_error(
            e@,
            ErrorCode::PolicyDenied,
            "broad SSH selectors require explicit non-interactive confirmation"@,
            "Resolve and review the target scope, then rerun with `--yes`."@,
        ),
{
    let broad = arguments.all || arguments.site_ids.len() > 0 || arguments.kind.len() > 0
        || arguments.label.len() > 0;
    if !interactive && broad && !arguments.yes {
        return Err(
            AppError::new(
                ErrorCode::PolicyDenied,
                "broad SSH selectors require explicit non-interactive confirmation",
            ).with_hint("Resolve and review the target scope, then rerun with `--yes`."),
        );
    }
    Ok(())
}

// ---------------------------------------------------------------------------------------------
// Resolution
// ---------------------------------------------------------------------------------------------
/// Every environment of a catalog with the index of its site, in catalog order.
pub open spec fn flat_environments(sites: Seq<CatalogSite>) -> Seq<(int, EnvironmentSummary)>
    decreases sites.len(),
{
    if sites.len() == 0 {
        seq![]
    } else {
        flat_environments(sites.drop_last()) + sites.last().environments@.map_values(
            |e: EnvironmentSummary| ((sites.len() - 1) as int, e),
        )
    }
}

/// The resolved environment is the catalog's entry `p`, with its site.
pub open spec fn resolved_from(
    r: ResolvedEnvironment,
    sites: Seq<CatalogSite>,
    p: (int, EnvironmentSummary),
) -> bool {
    0 <= p.0 < sites.len() && same_site_summary(r.site, sites[p.0].site) && r.environment == p.1
}

proof fn lemma_flat_step(sites: Seq<CatalogSite>, i: int)
    requires
        0 <= i < sites.len(),
    ensures
        flat_environments(sites.take(i + 1)) == flat_environments(sites.take(i))
            + sites[i].environments@.map_values(|e: EnvironmentSummary| (i, e)),
{
    assert(sites.take(i + 1).drop_last() =~= sites.take(i));
    assert(sites.take(i + 1).last() == sites[i]);
}

proof fn lemma_flat_sites(sites: Seq<CatalogSite>, i: int)
    requires
        0 <= i <= sites.len(),
    ensures
        forall|k: int|
            0 <= k < flat_environments(sites.take(i)).len() ==> 0 <= (
            #[trigger] flat_environments(sites.take(i))[k]).0 < i,
    decreases i,
{
    if i > 0 {
        lemma_flat_sites(sites, i - 1);
        lemma_flat_step(sites, i - 1);
    }
}

/// Environments whose identifier equals `id`.
pub open spec fn environments_with_id(sites: Seq<CatalogSite>, id: Seq<char>) -> Seq<
    (int, EnvironmentSummary),
> {
    flat_environments(sites).filter(
        |p: (int, EnvironmentSummary)| p.1.reference.environment_id@ == id,
    )
}

/// Sites whose identifier equals `id`.
pub open spec fn sites_with_id(sites: Seq<CatalogSite>, id: Seq<char>) -> Seq<CatalogSite> {
    sites.filter(|s: CatalogSite| s.site.reference.site_id@ == id)
}

pub open spec fn same_catalog_site(a: CatalogSite, b: CatalogSite) -> bool {
    same_site_summary(a.site, b.site) && a.environments@ == b.environments@
}

fn clone_environments(environments: &Vec<EnvironmentSummary>) -> (r: Vec<EnvironmentSummary>)
    ensures
        r@ == environments@,
{
    let mut out: Vec<EnvironmentSummary> = Vec::new();
    let mut i: usize = 0;
    while i < environments.len()
        invariant
            i <= environments@.len(),
            out@ == environments@.take(i as int),
        decreases environments@.len() - i,
    {
        out.push(environments[i].clone());
        i = i + 1;
        assert(out@ =~= environments@.take(i as int));
    }
    assert(environments@.take(environments@.len() as int) =~= environments@);
    out
}

fn clone_site(site: &CatalogSite) -> (r: CatalogSite)
    ensures
        same_catalog_site(r, *site),
{
    CatalogSite { site: site.site.clone(), environments: clone_environments(&site.environments) }
}

/// Resolve one exact site identifier: unknown and ambiguous identifiers are errors.
pub fn resolve_site(snapshot: &CatalogSnapshot, site_id: &str) -> (r: Result<CatalogSite, AppError>)
    ensures
        !valid_opaque_id(site_id@) ==> (r matches Err(e) && e@ == opaque_selector_error()),
        valid_opaque_id(site_id@) ==> {
            let found = sites_with_id(snapshot.sites@, site_id@);
            &&& found.len() == 0 ==> (r matches Err(e) && plain_error(
                e@,
                ErrorCode::NotFound,
                "site ID was not found"@,
            ))
            &&& found.len() == 1 ==> (r matches Ok(site) && same_catalog_site(site, found[0]))
            &&& found.len() > 1 ==> (r matches Err(e) && plain_error(
                e@,
                ErrorCode::AmbiguousTarget,
                "site ID matched more than one site"@,
            ))
        },
{
    validate_opaque_selector(site_id)?;
    let ghost sites = snapshot.sites@;
    let ghost pred = |s: CatalogSite| s.site.reference.site_id@ == site_id@;
    let mut count: usize = 0;
    let mut first: usize = 0;
    let mut i: usize = 0;
    proof {
        reveal(Seq::filter);
        assert(sites.take(0).filter(pred) =~= Seq::<CatalogSite>::empty());
    }
    while i < snapshot.sites.len()
        invariant
            sites == snapshot.sites@,
            i <= sites.len(),
            pred == (|s: CatalogSite| s.site.reference.site_id@ == site_id@),
            count as int == sites.take(i as int).filter(pred).len(),
            count > 0 ==> first < i && sites.take(i as int).filter(pred)[0] == sites[first as int],
            count <= i,
        decreases sites.len() - i,
    {
        proof {
            reveal(Seq::filter);
            assert(sites.take(i + 1).drop_last() =~= sites.take(i as int));
        }
        if snapshot.sites[i].site.reference.site_id.is(site_id) {
            if count == 0 {
                first = i;
            }
            count = count + 1;
        }
        i = i + 1;
    }
    assert(sites.take(sites.len() as int) =~= sites);
    if count == 0 {
        return Err(AppError::new(ErrorCode::NotFound, "site ID was not found"));
    }
    if count > 1 {
        return Err(AppError::new(ErrorCode::AmbiguousTarget, "site ID matched more than one site"));
    }
    Ok(clone_site(&snapshot.sites[first]))
}

/// Every environment of the catalog with its site, in catalog order.
pub fn all_environments(snapshot: &CatalogSnapshot) -> (r: Vec<ResolvedEnvironment>)
    ensures
        r@.len() == flat_environments(snapshot.sites@).len(),
        forall|k: int|
            0 <= k < r@.len() ==> resolved_from(
                #[trigger] r@[k],
                snapshot.sites@,
                flat_environments(snapshot.sites@)[k],
            ),
{
    let ghost sites = snapshot.sites@;
    let mut out: Vec<ResolvedEnvironment> = Vec::new();
    let mut i: usize = 0;
    while i < snapshot.sites.len()
        invariant
            sites == snapshot.sites@,
            i <= sites.len(),
            out@.len() == flat_environments(sites.take(i as int)).len(),
            forall|k: int|
                0 <= k < out@.len() ==> resolved_from(
                    #[trigger] out@[k],
                    sites,
                    flat_environments(sites.take(i as int))[k],
                ),
        decreases sites.len() - i,
    {
        proof {
            lemma_flat_step(sites, i as int);
        }
        let site = &snapshot.sites[i];
        let ghost base = flat_environments(sites.take(i as int));
        let ghost envs = site.environments@;
        let mut j: usize = 0;
        while j < site.environments.len()
            invariant
                sites == snapshot.sites@,
                i < sites.len(),
                site == &sites[i as int],
                envs == site.environments@,
                base == flat_environments(sites.take(i as int)),
                j <= envs.len(),
                out@.len() == base.len() + j,
                forall|k: int|
                    0 <= k < out@.len() ==> resolved_from(
                        #[trigger] out@[k],
                        sites,
                        (base + envs.map_values(|e: EnvironmentSummary| (i as int, e)))[k],
                    ),
            decreases envs.len() - j,
        {
            out.push(
                ResolvedEnvironment {
                    site: site.site.clone(),
                    environment: site.environments[j].clone(),
                },
            );
            j = j + 1;
        }
        i = i + 1;
    }
    assert(sites.take(sites.len() as int) =~= sites);
    out
}

/// Resolve one exact environment identifier: unknown and ambiguous identifiers are errors.
pub fn resolve_environment(snapshot: &CatalogSnapshot, environment_id: &str) -> (r: Result<
    ResolvedEnvironment,
    AppError,
>)
    ensures
        !valid_opaque_id(environment_id@) ==> (r matches Err(e) && e@ == opaque_selector_error()),
        valid_opaque_id(environment_id@) ==> {
            let found = environments_with_id(snapshot.sites@, environment_id@);
            &&& found.len() == 0 ==> (r matches Err(e) && plain_error(
                e@,
                ErrorCode::NotFound,
                "environment ID was not found"@,
            ))
            &&& found.len() == 1 ==> (r matches Ok(resolved) && resolved_from(
                resolved,
                snapshot.sites@,
                found[0],
            ))
            &&& found.len() > 1 ==> (r matches Err(e) && plain_error(
                e@,
                ErrorCode::AmbiguousTarget,
                "environment ID matched more than one environment"@,
            ))
        },
{
    validate_opaque_selector(environment_id)?;
    let all = all_environments(snapshot);
    let ghost flat = flat_environments(snapshot.sites@);
    let ghost pred = |p: (int, EnvironmentSummary)| p.1.reference.environment_id@ == environment_id@;
    let mut count: usize = 0;
    let mut first: usize = 0;
    let mut i: usize = 0;
    proof {
        reveal(Seq::filter);
        assert(flat.take(0).filter(pred) =~= Seq::<(int, EnvironmentSummary)>::empty());
    }
    while i < all.len()
        invariant
            flat == flat_environments(snapshot.sites@),
            all@.len() == flat.len(),
            forall|k: int|
                0 <= k < all@.len() ==> resolved_from(#[trigger] all@[k], snapshot.sites@, flat[k]),
            i <= flat.len(),
            pred == (|p: (int, EnvironmentSummary)| p.1.reference.environment_id@ == environment_id@),
            count as int == flat.take(i as int).filter(pred).len(),
            count > 0 ==> first < i && flat.take(i as int).filter(pred)[0] == flat[first as int],
            count <= i,
        decreases flat.len() - i,
    {
        proof {
            reveal(Seq::filter);
            assert(flat.take(i + 1).drop_last() =~= flat.take(i as int));
            assert(resolved_from(all@[i as int], snapshot.sites@, flat[i as int]));
        }
        if all[i].environment.reference.environment_id.is(environment_id) {
            if count == 0 {
                first = i;
            }
            count = count + 1;
        }
        i = i + 1;
    }
    assert(flat.take(flat.len() as int) =~= flat);
    if count == 0 {
        return Err(AppError::new(ErrorCode::NotFound, "environment ID was not found"));
    }
    if count > 1 {
        return Err(
            AppError::new(
                ErrorCode::AmbiguousTarget,
                "environment ID matched more than one environment",
            ),
        );
    }
    assert(resolved_from(all@[first as int], snapshot.sites@, flat[first as int]));
    Ok(all[first].clone())
}

// ---------------------------------------------------------------------------------------------
// Selection
// ---------------------------------------------------------------------------------------------
pub open spec fn kind_of(k: EnvironmentKindArg) -> EnvironmentKind {
    match k {
        EnvironmentKindArg::Production => EnvironmentKind::Production,
        EnvironmentKindArg::Staging => EnvironmentKind::Staging,
        EnvironmentKindArg::Development => EnvironmentKind::Development,
        EnvironmentKindArg::Other => EnvironmentKind::Other,
    }
}

pub fn kind(k: EnvironmentKindArg) -> (r: EnvironmentKind)
    ensures
        r == kind_of(k),
{
    match k {
        EnvironmentKindArg::Production => EnvironmentKind::Production,
        EnvironmentKindArg::Staging => EnvironmentKind::Staging,
        EnvironmentKindArg::Development => EnvironmentKind::Development,
        EnvironmentKindArg::Other => EnvironmentKind::Other,
    }
}

proof fn reveal_kind_names()
    ensures
        ascii_lower_seq("production"@) == "production"@,
        ascii_lower_seq("staging"@) == "staging"@,
        ascii_lower_seq("development"@) == "development"@,
        ascii_lower_seq("other"@) == "other"@,
        "production"@ != "staging"@,
        "production"@ != "development"@,
        "production"@ != "other"@,
        "staging"@ != "development"@,
        "staging"@ != "other"@,
        "development"@ != "other"@,
        "production"@ != "live"@ && "production"@ != "prod"@,
        "staging"@ != "live"@ && "staging"@ != "prod"@ && "staging"@ != "stage"@,
        "development"@ != "live"@ && "development"@ != "prod"@ && "development"@ != "stage"@
            && "development"@ != "dev"@,
        "other"@ != "live"@ && "other"@ != "prod"@ && "other"@ != "stage"@ && "other"@ != "dev"@,
{
    reveal_strlit("production");
    reveal_strlit("staging");
    reveal_strlit("development");
    reveal_strlit("other");
    reveal_strlit("live");
    reveal_strlit("prod");
    reveal_strlit("stage");
    reveal_strlit("dev");
    assert(ascii_lower_seq("production"@) =~= "production"@);
    assert(ascii_lower_seq("staging"@) =~= "staging"@);
    assert(ascii_lower_seq("development"@) =~= "development"@);
    assert(ascii_lower_seq("other"@) =~= "other"@);
    assert("other"@[0] != "stage"@[0]);
}

/// A `--kind` argument stands for the environment kind of the same name: the kind it selects is
/// displayed under that name, and a provider environment called by that name has that kind.
pub proof fn lemma_kind_argument_names_its_kind(k: EnvironmentKindArg)
    ensures
        kind_label(kind_of(k)) == kind_arg_name(k),
        normalized_kind(kind_arg_name(k)) == kind_of(k),
{
    reveal_kind_names();
}

/// The kind filter admits an environment exactly when the name of its kind is one of the
/// requested `--kind` words.
pub proof fn lemma_kind_filter_selects_named_kinds(kinds: Seq<EnvironmentKindArg>, kind: EnvironmentKind)
    ensures
        kinds.map_values(|k: EnvironmentKindArg| kind_of(k)).contains(kind) <==> exists|i: int|
            0 <= i < kinds.len() && kind_label(kind) == kind_arg_name(#[trigger] kinds[i]),
{
    reveal_kind_names();
    let mapped = kinds.map_values(|k: EnvironmentKindArg| kind_of(k));
    if mapped.contains(kind) {
        let i = choose|i: int| 0 <= i < mapped.len() && mapped[i] == kind;
        lemma_kind_argument_names_its_kind(kinds[i]);
    }
    if exists|i: int| 0 <= i < kinds.len() && kind_label(kind) == kind_arg_name(#[trigger] kinds[i]) {
        let i = choose|i: int| 0 <= i < kinds.len() && kind_label(kind) == kind_arg_name(#[trigger] kinds[i]);
        lemma_kind_argument_names_its_kind(kinds[i]);
        assert(mapped[i] == kind);
    }
}

/// The site passes the site-identifier and label categories.
pub open spec fn site_selected(a: SshRunArgs, site: CatalogSite) -> bool {
    &&& (a.site_ids@.len() == 0 || texts(a.site_ids@).contains(site.site.reference.site_id@))
    &&& (a.label@.len() == 0 || exists|k: int|
        0 <= k < site.site.labels@.len() && texts(a.label@).contains(
            #[trigger] site.site.labels@[k].name@,
        ))
}

/// The environment passes the environment-identifier and kind categories.
pub open spec fn environment_selected(a: SshRunArgs, e: EnvironmentSummary) -> bool {
    &&& (a.environment_ids@.len() == 0 || texts(a.environment_ids@).contains(
        e.reference.environment_id@,
    ))
    &&& (a.kind@.len() == 0 || a.kind@.map_values(|k: EnvironmentKindArg| kind_of(k)).contains(
        e.kind,
    ))
}

/// Catalog entries passing every used selector category.
pub open spec fn selected_environments(a: SshRunArgs, sites: Seq<CatalogSite>) -> Seq<
    (int, EnvironmentSummary),
> {
    flat_environments(sites).filter(
        |p: (int, EnvironmentSummary)| site_selected(a, sites[p.0]) && environment_selected(a, p.1),
    )
}

/// The first error that `check` reports for the values, in order.
pub open spec fn first_error(
    values: Seq<Seq<char>>,
    check: spec_fn(Seq<char>) -> Option<AppErrorView>,
) -> Option<AppErrorView>
    decreases values.len(),
{
    if values.len() == 0 {
        None
    } else if check(values[0]) is Some {
        check(values[0])
    } else {
        first_error(values.drop_first(), check)
    }
}

pub open spec fn environment_id_error(sites: Seq<CatalogSite>, id: Seq<char>) -> Option<AppErrorView> {
    let n = environments_with_id(sites, id).len();
    if n == 0 {
        Some(
            AppErrorView {
                code: ErrorCode::NotFound,
                message: "environment ID was not found"@,
                hint: None,
            },
        )
    } else if n > 1 {
        Some(
            AppErrorView {
                code: ErrorCode::AmbiguousTarget,
                message: "environment ID matched more than one environment"@,
                hint: None,
            },
        )
    } else {
        None
    }
}

pub open spec fn site_id_error(sites: Seq<CatalogSite>, id: Seq<char>) -> Option<AppErrorView> {
    let n = sites_with_id(sites, id).len();
    if n == 0 {
        Some(AppErrorView { code: ErrorCode::NotFound, message: "site ID was not found"@, hint: None })
    } else if n > 1 {
        Some(
            AppErrorView {
                code: ErrorCode::AmbiguousTarget,
                message: "site ID matched more than one site"@,
                hint: None,
            },
        )
    } else {
        None
    }
}

/// Some site of the catalog carries a label with this exact name.
pub open spec fn label_known(sites: Seq<CatalogSite>, label: Seq<char>) -> bool {
    exists|i: int, k: int|
        0 <= i < sites.len() && 0 <= k < sites[i].site.labels@.len()
            && #[trigger] sites[i].site.labels@[k].name@ == label
}

pub open spec fn label_error(sites: Seq<CatalogSite>, label: Seq<char>) -> Option<AppErrorView> {
    if !valid_label_selector(label) {
        Some(label_selector_error())
    } else if !label_known(sites, label) {
        Some(AppErrorView { code: ErrorCode::NotFound, message: "site label was not found"@, hint: None })
    } else {
        None
    }
}

/// Why a selection fails against a catalog, if it does: malformed selectors, then unknown or
/// ambiguous exact identifiers and unknown labels in argument order, then an empty result.
pub open spec fn selection_error(a: SshRunArgs, sites: Seq<CatalogSite>) -> Option<AppErrorView> {
    if selection_syntax_error(a) is Some {
        selection_syntax_error(a)
    } else if first_error(texts(a.environment_ids@), |id: Seq<char>| environment_id_error(sites, id))
        is Some {
        first_error(texts(a.environment_ids@), |id: Seq<char>| environment_id_error(sites, id))
    } else if first_error(texts(a.site_ids@), |id: Seq<char>| site_id_error(sites, id)) is Some {
        first_error(texts(a.site_ids@), |id: Seq<char>| site_id_error(sites, id))
    } else if first_error(texts(a.label@), |l: Seq<char>| label_error(sites, l)) is Some {
        first_error(texts(a.label@), |l: Seq<char>| label_error(sites, l))
    } else if selected_environments(a, sites).len() == 0 {
        Some(
            AppErrorView {
                code: ErrorCode::NotFound,
                message: "no environments matched every selector category"@,
                hint: Some("Repeated selectors are ORed; different selector categories are ANDed."@),
            },
        )
    } else {
        None
    }
}

fn contains_text(list: &Vec<String>, value: &str) -> (r: bool)
    ensures
        r == texts(list@).contains(value@),
{
    let mut i: usize = 0;
    while i < list.len()
        invariant
            i <= list@.len(),
            forall|k: int| 0 <= k < i ==> #[trigger] list@[k]@ != value@,
        decreases list@.len() - i,
    {
        if str_eq(list[i].as_str(), value) {
            assert(texts(list@)[i as int] == value@);
            return true;
        }
        i = i + 1;
    }
    assert(!texts(list@).contains(value@)) by {
        if texts(list@).contains(value@) {
            let k = choose|k: int| 0 <= k < texts(list@).len() && texts(list@)[k] == value@;
            assert(list@[k]@ == value@);
        }
    }
    false
}

fn contains_kind(kinds: &Vec<EnvironmentKindArg>, value: EnvironmentKind) -> (r: bool)
    ensures
        r == kinds@.map_values(|k: EnvironmentKindArg| kind_of(k)).contains(value),
{
    let ghost mapped = kinds@.map_values(|k: EnvironmentKindArg| kind_of(k));
    let mut i: usize = 0;
    while i < kinds.len()
        invariant
            mapped == kinds@.map_values(|k: EnvironmentKindArg| kind_of(k)),
            i <= kinds@.len(),
            forall|k: int| 0 <= k < i ==> #[trigger] mapped[k] != value,
        decreases kinds@.len() - i,
    {
        if kind(kinds[i]) == value {
            assert(mapped[i as int] == value);
            return true;
        }
        i = i + 1;
    }
    false
}

fn site_passes(arguments: &SshRunArgs, site: &CatalogSite) -> (r: bool)
    ensures
        r == site_selected(*arguments, *site),
{
    let site_matches = arguments.site_ids.len() == 0 || contains_text(
        &arguments.site_ids,
        site.site.reference.site_id.as_str(),
    );
    if !site_matches {
        return false;
    }
    if arguments.label.len() == 0 {
        return true;
    }
    let labels = &site.site.labels;
    let mut k: usize = 0;
    while k < labels.len()
        invariant
            labels == &site.site.labels,
            arguments.site_ids@.len() == 0 || texts(arguments.site_ids@).contains(
                site.site.reference.site_id@,
            ),
            arguments.label@.len() > 0,
            k <= labels@.len(),
            forall|q: int| 0 <= q < k ==> !texts(arguments.label@).contains(#[trigger] labels@[q].name@),
        decreases labels@.len() - k,
    {
        if contains_text(&arguments.label, labels[k].name.as_str()) {
            return true;
        }
        k = k + 1;
    }
    false
}

fn environment_passes(arguments: &SshRunArgs, environment: &EnvironmentSummary) -> (r: bool)
    ensures
        r == environment_selected(*arguments, *environment),
{
    (arguments.environment_ids.len() == 0 || contains_text(
        &arguments.environment_ids,
        environment.reference.environment_id.as_str(),
    )) && (arguments.kind.len() == 0 || contains_kind(&arguments.kind, environment.kind))
}

fn catalog_has_label(snapshot: &CatalogSnapshot, label: &str) -> (r: bool)
    ensures
        r == label_known(snapshot.sites@, label@),
{
    let mut i: usize = 0;
    while i < snapshot.sites.len()
        invariant
            i <= snapshot.sites@.len(),
            forall|p: int, q: int|
                0 <= p < i && 0 <= q < snapshot.sites@[p].site.labels@.len()
                    ==> #[trigger] snapshot.sites@[p].site.labels@[q].name@ != label@,
        decreases snapshot.sites@.len() - i,
    {
        let labels = &snapshot.sites[i].site.labels;
        let mut k: usize = 0;
        while k < labels.len()
            invariant
                i < snapshot.sites@.len(),
                labels == &snapshot.sites@[i as int].site.labels,
                k <= labels@.len(),
                forall|p: int, q: int|
                    0 <= p < i && 0 <= q < snapshot.sites@[p].site.labels@.len()
                        ==> #[trigger] snapshot.sites@[p].site.labels@[q].name@ != label@,
                forall|q: int| 0 <= q < k ==> #[trigger] labels@[q].name@ != label@,
            decreases labels@.len() - k,
        {
            if str_eq(labels[k].name.as_str(), label) {
                return true;
            }
            k = k + 1;
        }
        i = i + 1;
    }
    false
}

fn check_environment_ids(snapshot: &CatalogSnapshot, ids: &Vec<String>) -> (r: Result<(), AppError>)
    requires
        all_valid_ids(ids@),
    ensures
        match first_error(texts(ids@), |id: Seq<char>| environment_id_error(snapshot.sites@, id)) {
            None => r is Ok,
            Some(e) => r matches Err(err) && err@ == e,
        },
{
    let ghost check = |id: Seq<char>| environment_id_error(snapshot.sites@, id);
    let mut i: usize = 0;
    assert(texts(ids@).skip(0) =~= texts(ids@));
    while i < ids.len()
        invariant
            all_valid_ids(ids@),
            check == (|id: Seq<char>| environment_id_error(snapshot.sites@, id)),
            i <= ids@.len(),
            first_error(texts(ids@), check) == first_error(texts(ids@).skip(i as int), check),
        decreases ids@.len() - i,
    {
        assert(texts(ids@).skip(i as int).drop_first() =~= texts(ids@).skip(i + 1));
        assert(texts(ids@).skip(i as int)[0] == ids@[i as int]@);
        assert(valid_opaque_id(ids@[i as int]@));
        resolve_environment(snapshot, ids[i].as_str())?;
        i = i + 1;
    }
    Ok(())
}

fn check_site_ids(snapshot: &CatalogSnapshot, ids: &Vec<String>) -> (r: Result<(), AppError>)
    requires
        all_valid_ids(ids@),
    ensures
        match first_error(texts(ids@), |id: Seq<char>| site_id_error(snapshot.sites@, id)) {
            None => r is Ok,
            Some(e) => r matches Err(err) && err@ == e,
        },
{
    let ghost check = |id: Seq<char>| site_id_error(snapshot.sites@, id);
    let mut i: usize = 0;
    assert(texts(ids@).skip(0) =~= texts(ids@));
    while i < ids.len()
        invariant
            all_valid_ids(ids@),
            check == (|id: Seq<char>| site_id_error(snapshot.sites@, id)),
            i <= ids@.len(),
            first_error(texts(ids@), check) == first_error(texts(ids@).skip(i as int), check),
        decreases ids@.len() - i,
    {
        assert(texts(ids@).skip(i as int).drop_first() =~= texts(ids@).skip(i + 1));
        assert(texts(ids@).skip(i as int)[0] == ids@[i as int]@);
        assert(valid_opaque_id(ids@[i as int]@));
        resolve_site(snapshot, ids[i].as_str())?;
        i = i + 1;
    }
    Ok(())
}

fn check_requested_labels(snapshot: &CatalogSnapshot, labels: &Vec<String>) -> (r: Result<
    (),
    AppError,
>)
    ensures
        match first_error(texts(labels@), |l: Seq<char>| label_error(snapshot.sites@, l)) {
            None => r is Ok,
            Some(e) => r matches Err(err) && err@ == e,
        },
{
    let ghost check = |l: Seq<char>| label_error(snapshot.sites@, l);
    let mut i: usize = 0;
    assert(texts(labels@).skip(0) =~= texts(labels@));
    while i < labels.len()
        invariant
            check == (|l: Seq<char>| label_error(snapshot.sites@, l)),
            i <= labels@.len(),
            first_error(texts(labels@), check) == first_error(texts(labels@).skip(i as int), check),
        decreases labels@.len() - i,
    {
        assert(texts(labels@).skip(i as int).drop_first() =~= texts(labels@).skip(i + 1));
        assert(texts(labels@).skip(i as int)[0] == labels@[i as int]@);
        validate_label_selector(labels[i].as_str())?;
        if !catalog_has_label(snapshot, labels[i].as_str()) {
            return Err(AppError::new(ErrorCode::NotFound, "site label was not found"));
        }
        i = i + 1;
    }
    Ok(())
}

/// Select the environments that pass every used selector category, in catalog order.
pub fn select_environments(snapshot: &CatalogSnapshot, arguments: &SshRunArgs) -> (r: Result<
    EnvironmentSelection,
    AppError,
>)
    ensures
        match selection_error(*arguments, snapshot.sites@) {
            Some(e) => r matches Err(err) && err@ == e,
            None => r matches Ok(selection) && {
                let chosen = selected_environments(*arguments, snapshot.sites@);
                &&& selection.broad == is_broad(*arguments)
                &&& selection.targets@.len() == chosen.len()
                &&& forall|k: int|
                    0 <= k < chosen.len() ==> resolved_from(
                        #[trigger] selection.targets@[k],
                        snapshot.sites@,
                        chosen[k],
                    )
            },
        },
{
    validate_selection_syntax(arguments)?;
    check_environment_ids(snapshot, &arguments.environment_ids)?;
    check_site_ids(snapshot, &arguments.site_ids)?;
    check_requested_labels(snapshot, &arguments.label)?;
    let ghost sites = snapshot.sites@;
    let ghost pred = |p: (int, EnvironmentSummary)|
        site_selected(*arguments, sites[p.0]) && environment_selected(*arguments, p.1);
    let mut targets: Vec<ResolvedEnvironment> = Vec::new();
    let mut i: usize = 0;
    proof {
        reveal(Seq::filter);
        assert(sites.take(0) =~= Seq::<CatalogSite>::empty());
        assert(flat_environments(sites.take(0)).filter(pred) =~= Seq::<(int, EnvironmentSummary)>::empty());
    }
    while i < snapshot.sites.len()
        invariant
            sites == snapshot.sites@,
            i <= sites.len(),
            pred == (|p: (int, EnvironmentSummary)|
                site_selected(*arguments, sites[p.0]) && environment_selected(*arguments, p.1)),
            targets@.len() == flat_environments(sites.take(i as int)).filter(pred).len(),
            forall|k: int|
                0 <= k < targets@.len() ==> resolved_from(
                    #[trigger] targets@[k],
                    sites,
                    flat_environments(sites.take(i as int)).filter(pred)[k],
                ),
        decreases sites.len() - i,
    {
        proof {
            lemma_flat_step(sites, i as int);
        }
        let site = &snapshot.sites[i];
        let ghost base = flat_environments(sites.take(i as int));
        let ghost envs = site.environments@;
        let site_ok = site_passes(arguments, site);
        let mut j: usize = 0;
        assert(base + envs.take(0).map_values(|e: EnvironmentSummary| (i as int, e)) =~= base);
        while j < site.environments.len()
            invariant
                sites == snapshot.sites@,
                i < sites.len(),
                site == &sites[i as int],
                envs == site.environments@,
                base == flat_environments(sites.take(i as int)),
                site_ok == site_selected(*arguments, sites[i as int]),
                pred == (|p: (int, EnvironmentSummary)|
                    site_selected(*arguments, sites[p.0]) && environment_selected(*arguments, p.1)),
                j <= envs.len(),
                targets@.len() == (base + envs.take(j as int).map_values(
                    |e: EnvironmentSummary| (i as int, e),
                )).filter(pred).len(),
                forall|k: int|
                    0 <= k < targets@.len() ==> resolved_from(
                        #[trigger] targets@[k],
                        sites,
                        (base + envs.take(j as int).map_values(
                            |e: EnvironmentSummary| (i as int, e),
                        )).filter(pred)[k],
                    ),
            decreases envs.len() - j,
        {
            let ghost prefix = base + envs.take(j as int).map_values(
                |e: EnvironmentSummary| (i as int, e),
            );
            let ghost next = base + envs.take(j + 1).map_values(
                |e: EnvironmentSummary| (i as int, e),
            );
            proof {
                reveal(Seq::filter);
                assert(next =~= prefix.push((i as int, envs[j as int])));
                assert(next.drop_last() =~= prefix);
            }
            if site_ok && environment_passes(arguments, &site.environments[j]) {
                targets.push(
                    ResolvedEnvironment {
                        site: site.site.clone(),
                        environment: site.environments[j].clone(),
                    },
                );
            }
            j = j + 1;
        }
        proof {
            assert(envs.take(envs.len() as int) =~= envs);
        }
        i = i + 1;
    }
    assert(sites.take(sites.len() as int) =~= sites);
    if targets.len() == 0 {
        return Err(
            AppError::new(
                ErrorCode::NotFound,
                "no environments matched every selector category",
            ).with_hint("Repeated selectors are ORed; different selector categories are ANDed."),
        );
    }
    let broad = arguments.all || arguments.site_ids.len() > 0 || arguments.kind.len() > 0
        || arguments.label.len() > 0;
    Ok(EnvironmentSelection { targets, broad })
}

} // verus!
