use hostbraid::catalog::{resolve_environment, resolve_site, select_environments, validate_selection_syntax};
use hostbraid::cli::{EnvironmentKindArg, ProfileSelectionArgs, SshRunArgs};
use hostbraid::error::ErrorCode;
use hostbraid::model::{EnvironmentKind, EnvironmentRef, OpaqueId, ProviderProfileRef, SiteRef};
use hostbraid::provider::{CatalogSite, CatalogSnapshot, EnvironmentSummary, SiteLabel, SiteSummary};

fn snapshot() -> CatalogSnapshot {
    let profile = ProviderProfileRef::try_new("kinsta", "agency").expect("profile");
    CatalogSnapshot {
        profile,
        sites: vec![
            site("site-1", "Alpha", &["customer-a"], &["env-1", "env-2"]),
            site("site-2", "Beta", &["customer-b"], &["env-3"]),
        ],
    }
}

fn site(id: &str, name: &str, labels: &[&str], environments: &[&str]) -> CatalogSite {
    let site_ref = SiteRef::try_new("kinsta", "agency", id).expect("site ref");
    let site_id = site_ref.site_id.as_str().to_owned();
    CatalogSite {
        site: SiteSummary {
            reference: site_ref,
            display_name: name.to_owned(),
            primary_domain: None,
            labels: labels
                .iter()
                .map(|label| SiteLabel {
                    id: OpaqueId::new(&format!("label-{label}")).expect("label id"),
                    name: (*label).to_owned(),
                })
                .collect(),
        },
        environments: environments
            .iter()
            .enumerate()
            .map(|(index, id)| EnvironmentSummary {
                reference: EnvironmentRef::try_new("kinsta", "agency", &site_id, id)
                    .expect("environment ref"),
                display_name: (*id).to_owned(),
                kind: if index == 0 { EnvironmentKind::Production } else { EnvironmentKind::Staging },
                provider_kind: None,
                primary_domain: None,
            })
            .collect(),
    }
}

fn arguments() -> SshRunArgs {
    SshRunArgs {
        selection: ProfileSelectionArgs { profile: None },
        environment_ids: Vec::new(),
        site_ids: Vec::new(),
        kind: Vec::new(),
        label: Vec::new(),
        all: false,
        jobs: 8,
        timeout: None,
        fail_fast: false,
        yes: false,
        no_pool: false,
        remote_command: vec![b"true".to_vec()],
    }
}

#[test]
fn exact_environment_ids_need_no_broad_confirmation() {
    let mut arguments = arguments();
    arguments.environment_ids = vec!["env-1".to_owned(), "env-3".to_owned()];

    let selection = select_environments(&snapshot(), &arguments).expect("selection");

    assert!(!selection.broad);
    assert_eq!(selection.targets.len(), 2);
}

#[test]
fn categories_are_anded_and_repeats_are_ored() {
    let mut arguments = arguments();
    arguments.site_ids = vec!["site-1".to_owned(), "site-2".to_owned()];
    arguments.kind = vec![EnvironmentKindArg::Production];
    arguments.label = vec!["customer-a".to_owned(), "customer-b".to_owned()];

    let selection = select_environments(&snapshot(), &arguments).expect("selection");

    assert!(selection.broad);
    assert_eq!(selection.targets.len(), 2);
    assert!(selection.targets.iter().all(|target| target.environment.kind == EnvironmentKind::Production));
}

#[test]
fn unknown_exact_ids_and_labels_are_rejected() {
    assert!(resolve_environment(&snapshot(), "missing").is_err());

    let mut arguments = arguments();
    arguments.label = vec!["missing".to_owned()];
    assert!(select_environments(&snapshot(), &arguments).is_err());
}

#[test]
fn missing_or_malformed_selectors_fail_without_a_catalog() {
    let mut missing = arguments();
    let error = validate_selection_syntax(&missing).expect_err("selector is required");
    assert_eq!(error.message(), "at least one SSH target selector is required");

    missing.environment_ids = vec![" leading-space".to_owned()];
    let error = validate_selection_syntax(&missing).expect_err("selector is malformed");
    assert_eq!(error.message(), "provider ID selector is empty or malformed");
}

#[test]
fn all_selects_every_environment_in_catalog_order() {
    let mut arguments = arguments();
    arguments.all = true;
    let selection = select_environments(&snapshot(), &arguments).expect("selection");
    assert!(selection.broad);
    let ids: Vec<&str> = selection
        .targets
        .iter()
        .map(|target| target.environment.reference.environment_id.as_str())
        .collect();
    assert_eq!(ids, vec!["env-1", "env-2", "env-3"]);
}

#[test]
fn exact_lookups_find_sites_and_environments() {
    let found = resolve_environment(&snapshot(), "env-3").expect("environment");
    assert_eq!(found.site.display_name, "Beta");
    let site = resolve_site(&snapshot(), "site-1").expect("site");
    assert_eq!(site.environments.len(), 2);
    let error = resolve_site(&snapshot(), "site-9").expect_err("missing site");
    assert_eq!(error.code(), ErrorCode::NotFound);
}
