use hostbraid::catalog::{EnvironmentSelection, ResolvedEnvironment};
use hostbraid::cli::{InventoryListArgs, ProfileSelectionArgs};
use hostbraid::error::ErrorCode;
use hostbraid::inventory::filter_inventory;
use hostbraid::kinsta::map_http_status;
use hostbraid::model::{EnvironmentKind, EnvironmentRef, OpaqueId, SiteRef};
use hostbraid::provider::{
    EnvironmentSummary, SiteLabel, SiteSummary, SshTarget, WordPressComponent,
    WordPressComponentInstallation, WordPressComponentInventory, WordPressComponentKind,
};
use hostbraid::remote::{ExecutionTarget, PreparedSshTargets};
use hostbraid::render::{
    render_batch_report, render_inventory, render_sites, safe_optional, selection_confirmation,
    selection_preview,
};
use hostbraid::ssh::{
    BatchReport, CaptureEncoding, CapturedStream, ExecutionFailureCode, ExecutionState,
    TargetExecution,
};

fn component(slug: &str, updates: u64, vulnerable: bool) -> WordPressComponent {
    WordPressComponent {
        slug: slug.to_owned(),
        title: format!("Title {slug}"),
        description: None,
        latest_version: None,
        latest_version_vulnerable: false,
        environment_count: 1,
        update_count: updates,
        installations: vec![WordPressComponentInstallation {
            environment: EnvironmentRef::try_new("kinsta", "agency", "site", "env")
                .expect("environment"),
            status: "active".to_owned(),
            installed_version: "1.0".to_owned(),
            installed_version_vulnerable: vulnerable,
            update_state: None,
            available_version: None,
            available_version_vulnerable: false,
            update_status: None,
            auto_update_type: None,
        }],
    }
}

#[test]
fn inventory_filters_are_anded() {
    let inventory = WordPressComponentInventory {
        kind: WordPressComponentKind::Plugin,
        total: 3,
        refreshed_at: None,
        components: vec![
            component("keep-me", 1, true),
            component("no-update", 0, true),
            component("not-vulnerable", 1, false),
        ],
    };
    let arguments = InventoryListArgs {
        selection: ProfileSelectionArgs { profile: None },
        search: Some("KEEP".to_owned()),
        updates: true,
        vulnerable: true,
        details: false,
    };

    let filtered = filter_inventory(inventory, &arguments).expect("filter inventory");

    assert_eq!(filtered.provider_total, 3);
    assert_eq!(filtered.matched_count, 1);
    assert_eq!(filtered.components[0].slug, "keep-me");
}

#[test]
fn inventory_search_is_unicode_case_insensitive() {
    let mut matching = component("coffee", 0, false);
    matching.title = "Éclair Tools".to_owned();
    let inventory = WordPressComponentInventory {
        kind: WordPressComponentKind::Plugin,
        total: 1,
        refreshed_at: None,
        components: vec![matching],
    };
    let arguments = InventoryListArgs {
        selection: ProfileSelectionArgs { profile: None },
        search: Some("éCLAIR".to_owned()),
        updates: false,
        vulnerable: false,
        details: false,
    };

    let filtered = filter_inventory(inventory, &arguments).expect("filter inventory");

    assert_eq!(filtered.matched_count, 1);
    assert_eq!(filtered.components[0].title, "Éclair Tools");
}

#[test]
fn blank_inventory_search_is_rejected() {
    let inventory = WordPressComponentInventory {
        kind: WordPressComponentKind::Theme,
        total: 0,
        refreshed_at: None,
        components: Vec::new(),
    };
    let arguments = InventoryListArgs {
        selection: ProfileSelectionArgs { profile: None },
        search: Some("   ".to_owned()),
        updates: false,
        vulnerable: false,
        details: false,
    };
    let error = filter_inventory(inventory, &arguments).expect_err("blank search");
    assert_eq!(error.code(), ErrorCode::InvalidInput);
}

fn execution_target(id: &str) -> ExecutionTarget {
    ExecutionTarget {
        environment: EnvironmentRef::try_new("kinsta", "agency", "site", id).expect("environment"),
        ssh: SshTarget::try_new("ssh.example", 22, "user", None).expect("SSH target"),
    }
}

#[test]
fn preflight_failures_merge_in_selection_order_and_honor_fail_fast() {
    let first = execution_target("env-1");
    let second_environment =
        EnvironmentRef::try_new("kinsta", "agency", "site", "env-2").expect("environment");
    let third = execution_target("env-3");
    let mut prepared = PreparedSshTargets {
        ready: vec![first.clone(), third],
        failures: vec![
            None,
            Some(TargetExecution::target_unavailable(second_environment.clone())),
            None,
        ],
    };

    prepared.apply_fail_fast(true);
    assert_eq!(prepared.ready, vec![first.clone()]);
    assert_eq!(
        prepared.failures[2].as_ref().map(|result| result.state),
        Some(ExecutionState::Skipped)
    );

    let report = prepared.merge(Some(BatchReport::from_results(vec![
        TargetExecution::target_unavailable(first.environment),
    ])));
    assert_eq!(report.results.len(), 3);
    assert_eq!(
        report
            .results
            .iter()
            .map(|result| result.environment.environment_id.as_str())
            .collect::<Vec<_>>(),
        vec!["env-1", "env-2", "env-3"]
    );
    assert_eq!(
        report.results[1].failure.as_ref().map(|failure| failure.code),
        Some(ExecutionFailureCode::TargetUnavailable)
    );
    assert_eq!(
        report.results[2].failure.as_ref().map(|failure| failure.code),
        Some(ExecutionFailureCode::FailFast)
    );
}

#[test]
fn provider_statuses_map_to_stable_error_categories() {
    assert_eq!(map_http_status(404).code(), ErrorCode::NotFound);
    assert_eq!(map_http_status(500).code(), ErrorCode::ProviderUnavailable);
    assert_eq!(map_http_status(403).code(), ErrorCode::PolicyDenied);
}

fn site(name: &str, labels: &[&str]) -> SiteSummary {
    SiteSummary {
        reference: SiteRef::try_new("kinsta", "agency", "site-1").expect("site"),
        display_name: name.to_owned(),
        primary_domain: None,
        labels: labels
            .iter()
            .map(|label| SiteLabel {
                id: OpaqueId::new("label").expect("label id"),
                name: (*label).to_owned(),
            })
            .collect(),
    }
}

#[test]
fn site_listing_escapes_names_and_joins_labels() {
    assert_eq!(render_sites(&[]), "No sites were returned by Kinsta.\n");
    let text = render_sites(&[site("Shop\u{202e}", &["client", "eu"])]);
    assert_eq!(
        text,
        "Sites (1)\n\n  Shop\\u{202e}\n    id: site-1\n    domain: —\n    labels: client, eu\n"
    );
    assert_eq!(safe_optional(Some("a\tb")), "a\\u{9}b");
    assert_eq!(safe_optional(None), "—");
}

#[test]
fn inventory_listing_shows_installations_only_with_details() {
    let data = hostbraid::machine::MachineInventoryData {
        kind: WordPressComponentKind::Plugin,
        provider_total: 2,
        matched_count: 1,
        refreshed_at: Some("2024-01-01".to_owned()),
        components: vec![component("cache", 2, true)],
    };
    let short = render_inventory(&data, false);
    assert_eq!(
        short,
        "WordPress plugins: 1 matched (2 provider total)\nRefreshed: 2024-01-01\n\n  Title cache (cache)\n    environments: 1  updates: 2  vulnerable installs: yes\n"
    );
    let long = render_inventory(&data, true);
    assert!(long.ends_with("      env  version=1.0  status=active  update=—  vulnerable\n"));
}

fn resolved(site_name: &str, env_name: &str, id: &str) -> ResolvedEnvironment {
    ResolvedEnvironment {
        site: site(site_name, &[]),
        environment: EnvironmentSummary {
            reference: EnvironmentRef::try_new("kinsta", "agency", "site-1", id).expect("env"),
            display_name: env_name.to_owned(),
            kind: EnvironmentKind::Production,
            provider_kind: None,
            primary_domain: None,
        },
    }
}

#[test]
fn batch_results_are_headed_by_their_selected_names() {
    let selection = EnvironmentSelection { targets: vec![resolved("Shop", "Live", "env-1")], broad: true };
    let mut ran = TargetExecution::target_unavailable(
        EnvironmentRef::try_new("kinsta", "agency", "site-1", "env-1").expect("env"),
    );
    ran.state = ExecutionState::Succeeded;
    ran.failure = None;
    ran.exit_code = Some(0);
    ran.stdout = CapturedStream {
        encoding: CaptureEncoding::Text,
        data: "ok\u{1b}[0m".to_owned(),
        truncated: false,
        captured_bytes: 6,
    };
    let other = TargetExecution::target_unavailable(
        EnvironmentRef::try_new("kinsta", "agency", "site-1", "env-9").expect("env"),
    );
    let blocks = render_batch_report(&[ran, other], &selection);
    assert_eq!(blocks.len(), 2);
    assert_eq!(
        blocks[0],
        "== Shop / Live (env-1) [succeeded, exit 0] ==\nstdout:\nok\\u{1b}[0m\n\n"
    );
    assert!(blocks[1].starts_with("== env-9 (env-9) [failed] ==\n"));
    assert!(blocks[1].contains("failure: "));

    let preview = selection_preview(&selection);
    assert_eq!(preview, "Selected 1 environment(s):\n  Shop / Live (env-1)\n");
    let decision = selection_confirmation(true, false, false);
    assert!(decision.show_preview && decision.ask);
    let exact = selection_confirmation(false, false, false);
    assert!(!exact.show_preview && !exact.ask);
}
