use hostbraid::error::ErrorCode;
use hostbraid::kinsta::{
    check_declared_length, grow_body_len, inventory_limits, map_catalog, normalize_environment_kind,
    parse_u16, require_ssh_enabled, ssh_capabilities, ssh_target_from_config, validate_api_key_response,
    validate_api_token, InventoryItem, InventoryLimits, InventoryPage, InventoryPager, PageStep,
    SshConfigResponse, ValidateResponse, WireEnvironment, WireLabel, WireSite,
};
use hostbraid::model::{EnvironmentKind, EnvironmentRef, ProviderProfileRef};

fn item(name: &str) -> InventoryItem {
    InventoryItem {
        name: name.to_owned(),
        title: name.to_owned(),
        description: None,
        latest_version: None,
        is_latest_version_vulnerable: false,
        environment_count: 0,
        update_count: 0,
        environments: Vec::new(),
    }
}

fn page(total: u64, at: &str, names: &[&str]) -> InventoryPage {
    InventoryPage { total, last_updated_at: Some(at.to_owned()), items: names.iter().map(|n| item(n)).collect() }
}

fn limits() -> InventoryLimits {
    InventoryLimits { max_items: 10, max_pages: 3, max_body_bytes: 1000 }
}

#[test]
fn inventory_paging_joins_pages_until_the_total_arrives() {
    let mut pager = InventoryPager::new(limits());
    assert_eq!(pager.next_request().expect("first page"), 0);
    let next = match pager.accept(page(3, "t1", &["a", "b"]), 10).expect("page accepted") {
        PageStep::Next(next) => next,
        PageStep::Done(_) => panic!("more items are expected"),
    };
    let mut next = next;
    assert_eq!(next.next_request().expect("second page"), 2);
    match next.accept(page(3, "t1", &["c"]), 10).expect("page accepted") {
        PageStep::Done(raw) => {
            assert_eq!(raw.total, 3);
            assert_eq!(raw.refreshed_at.as_deref(), Some("t1"));
            let names: Vec<&str> = raw.items.iter().map(|i| i.name.as_str()).collect();
            assert_eq!(names, vec!["a", "b", "c"]);
        }
        PageStep::Next(_) => panic!("every item arrived"),
    }
}

#[test]
fn inventory_rejects_duplicate_names_drift_and_overflow() {
    let mut pager = InventoryPager::new(limits());
    pager.next_request().expect("first page");
    let mut next = match pager.accept(page(4, "t1", &["a", "b"]), 10).expect("page accepted") {
        PageStep::Next(next) => next,
        PageStep::Done(_) => panic!("more items are expected"),
    };
    next.next_request().expect("second page");
    let error = next.accept(page(4, "t1", &["b", "c"]), 10).expect_err("duplicate name");
    assert_eq!(error.code(), ErrorCode::ProviderUnavailable);

    let mut pager = InventoryPager::new(limits());
    pager.next_request().expect("first page");
    assert!(pager.accept(page(11, "t1", &["a"]), 10).is_err());

    let mut pager = InventoryPager::new(limits());
    pager.next_request().expect("first page");
    assert!(pager.accept(page(1, "t1", &["a"]), 1001).is_err());
}

#[test]
fn inventory_caps_pages_and_never_fetches_past_the_bound() {
    let mut pager = InventoryPager::new(InventoryLimits { max_items: 10, max_pages: 1, max_body_bytes: 100 });
    pager.next_request().expect("first page");
    assert!(pager.next_request().is_err());
    assert_eq!(inventory_limits().max_pages, 1000);
}

#[test]
fn response_size_limits_are_checked_before_reading_on() {
    assert!(check_declared_length(Some(10), 10).is_ok());
    assert!(check_declared_length(Some(11), 10).is_err());
    assert!(check_declared_length(None, 10).is_ok());
    assert_eq!(grow_body_len(4, 6, 10).expect("fits"), 10);
    assert!(grow_body_len(4, 7, 10).is_err());
}

#[test]
fn api_tokens_and_validation_responses_are_checked() {
    assert!(validate_api_token("abc123").is_ok());
    assert!(validate_api_token("").is_err());
    assert!(validate_api_token("has\nnewline").is_err());
    let validation = validate_api_key_response(ValidateResponse {
        name: "ci".to_owned(),
        expires_at: None,
        company: "company_one".to_owned(),
        status: "active".to_owned(),
    })
    .expect("active key");
    assert_eq!(validation.company_id.as_str(), "company_one");
    let error = validate_api_key_response(ValidateResponse {
        name: "ci".to_owned(),
        expires_at: None,
        company: "company_one".to_owned(),
        status: "revoked".to_owned(),
    })
    .expect_err("inactive key");
    assert_eq!(error.code(), ErrorCode::AuthenticationFailed);
}

#[test]
fn ssh_coordinates_are_validated_against_the_environment() {
    let environment = EnvironmentRef::try_new("kinsta", "agency", "site-1", "env-1").expect("env");
    let response = SshConfigResponse {
        site_id: "site-1".to_owned(),
        environment_id: "env-1".to_owned(),
        port: "61000".to_owned(),
        host: "ssh.example".to_owned(),
        user: "site_user".to_owned(),
    };
    let target = ssh_target_from_config(&environment, &response).expect("target");
    assert_eq!(target.port(), 61000);
    let mut bad = response;
    bad.port = "99999".to_owned();
    assert_eq!(ssh_target_from_config(&environment, &bad).expect_err("bad port").code(), ErrorCode::ProviderUnavailable);
    assert_eq!(parse_u16("65535"), Some(65535));
    assert_eq!(parse_u16("65536"), None);
    assert_eq!(parse_u16("+1"), Some(1));
    assert_eq!(parse_u16("-1"), None);
    assert_eq!(parse_u16("+"), None);
    assert!(require_ssh_enabled(false).is_err());
    assert!(ssh_capabilities(false)[0].supported && !ssh_capabilities(false)[0].available);
}

#[test]
fn catalog_maps_labels_domains_and_environment_kinds() {
    let profile = ProviderProfileRef::try_new("kinsta", "agency").expect("profile");
    let snapshot = map_catalog(
        &profile,
        vec![WireSite {
            id: "site_one".to_owned(),
            display_name: "First Site".to_owned(),
            labels: vec![
                WireLabel { id: "label_z".to_owned(), name: "Zeta".to_owned() },
                WireLabel { id: "label_a".to_owned(), name: "Agency".to_owned() },
            ],
            environments: vec![
                WireEnvironment {
                    id: "env_stage".to_owned(),
                    name: "staging".to_owned(),
                    display_name: "Staging".to_owned(),
                    primary_domain: Some("staging.example.test".to_owned()),
                },
                WireEnvironment {
                    id: "env_live".to_owned(),
                    name: "live".to_owned(),
                    display_name: "Live".to_owned(),
                    primary_domain: Some("example.test".to_owned()),
                },
            ],
        }],
    )
    .expect("catalog maps");
    assert_eq!(snapshot.sites.len(), 1);
    let site = &snapshot.sites[0];
    assert_eq!(site.site.primary_domain.as_deref(), Some("example.test"));
    assert_eq!(site.site.labels[0].name, "Agency");
    assert_eq!(site.environments[0].kind, EnvironmentKind::Production);
    assert_eq!(site.environments[0].provider_kind.as_deref(), Some("live"));
    assert_eq!(site.environments[1].kind, EnvironmentKind::Staging);
    assert_eq!(site.site.reference.site_id.as_str(), "site_one");
    assert_eq!(normalize_environment_kind("Prod"), EnvironmentKind::Production);
    assert_eq!(normalize_environment_kind("dev"), EnvironmentKind::Development);
    assert_eq!(normalize_environment_kind("preview"), EnvironmentKind::Other);
}
