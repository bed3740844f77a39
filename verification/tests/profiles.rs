use hostbraid::credential::{
    credential_plan, missing_keyring_credential, token_from_environment, token_from_stdin_bytes,
    CredentialCandidate, CredentialPlan, EnvironmentValue, SecretToken,
};
use hostbraid::error::{AppError, ErrorCode};
use hostbraid::model::{OpaqueId, ProfileName, ProviderId};
use hostbraid::profiles::{
    add_profile, format_profile_ref, parse_profile_ref, remove_profile, select_profile,
    set_default_profile, show_snapshot, validate_environment_variable, CredentialSource,
    ProfileConfig, ProfileRecord, ValidatedCredential, CONFIG_SCHEMA_VERSION,
};
use hostbraid::render::{
    credential_source_label, profile_list, reference_sentence, render_profile_list,
    render_profile_result, ProfileView,
};

fn refused(result: Result<SecretToken, AppError>) -> AppError {
    match result {
        Ok(_) => panic!("the token was accepted"),
        Err(error) => error,
    }
}

fn profile(name: &str) -> ProfileRecord {
    ProfileRecord {
        provider: ProviderId::new("kinsta").expect("valid provider"),
        name: ProfileName::new(name).expect("valid profile"),
        company_id: OpaqueId::new(&format!("company-{name}")).expect("valid company"),
        credential_source: CredentialSource::Keyring,
        credential_expires_at: None,
    }
}

#[test]
fn profile_references_are_exact_and_canonical() {
    let reference = parse_profile_ref("kinsta:agency-se").expect("valid reference");
    assert_eq!(format_profile_ref(&reference), "kinsta:agency-se");

    for invalid in [
        "kinsta",
        "kinsta:",
        ":agency",
        "Kinsta:agency",
        "kinsta:agency:extra",
        "kinsta: agency",
    ] {
        let error = parse_profile_ref(invalid).expect_err("reference is invalid");
        assert_eq!(error.code(), ErrorCode::InvalidInput);
        assert!(error.hint().is_some_and(|hint| hint.contains("hb profiles")));
        assert!(!error.message().contains(invalid));
    }
}

#[test]
fn configuration_is_sorted_and_rejects_duplicates() {
    let mut configuration = ProfileConfig {
        schema_version: CONFIG_SCHEMA_VERSION,
        default_profile: None,
        profiles: vec![profile("zeta"), profile("alpha")],
    };
    configuration.normalize_and_validate().expect("configuration is valid");
    assert_eq!(configuration.profiles[0].name.as_str(), "alpha");

    configuration.profiles.push(profile("alpha"));
    let error = configuration.normalize_and_validate().expect_err("duplicates are rejected");
    assert!(error.hint().is_some_and(|hint| hint.contains("Back up profiles.json")));
}

#[test]
fn default_must_reference_an_existing_profile() {
    let mut configuration = ProfileConfig {
        default_profile: Some(parse_profile_ref("kinsta:missing").expect("syntactically valid reference")),
        ..ProfileConfig::empty()
    };
    let error = configuration.normalize_and_validate().expect_err("missing default is rejected");
    assert_eq!(error.code(), ErrorCode::InvalidInput);
    assert!(error.hint().is_some_and(|hint| hint.contains("hb login")));
}

#[test]
fn invalid_environment_names_explain_the_complete_safe_grammar() {
    let invalid = "SECRET=token-canary";
    let error = validate_environment_variable(invalid).expect_err("name is invalid");

    assert!(error.hint().is_some_and(|hint| hint.contains("1–128")));
    assert!(error.hint().is_some_and(|hint| hint.contains("do not start with a digit")));
    assert!(!error.message().contains(invalid));
    assert!(!error.hint().is_some_and(|hint| hint.contains(invalid)));
}

#[test]
fn invalid_provider_credential_metadata_has_provider_remediation() {
    let invalid = "secret-company-canary\n";
    let error = ValidatedCredential::new(invalid, None).expect_err("provider metadata is invalid");

    assert_eq!(error.code(), ErrorCode::InvalidInput);
    assert!(error.hint().is_some_and(|hint| hint.contains("Update HostBraid")));
    assert!(!error.message().contains(invalid));
    assert!(!error.hint().is_some_and(|hint| hint.contains(invalid)));
}

#[test]
fn invalid_tokens_explain_safe_input_without_echoing_the_value() {
    for secret_canary in ["secret-token-canary-never-render\n", "secret-token-canary\tnever-render"] {
        let error = refused(SecretToken::new(secret_canary.to_owned()));

        assert_eq!(
            error.message(),
            "credential token must be one non-empty line with no control characters"
        );
        assert!(error.hint().is_some_and(|hint| hint.contains("--token-stdin")));
        assert!(!error.message().contains(secret_canary));
        assert!(!error.hint().is_some_and(|hint| hint.contains(secret_canary)));
    }
}

#[test]
fn candidate_debug_redacts_token() {
    let candidate = CredentialCandidate::new(
        CredentialSource::Keyring,
        SecretToken::new("do-not-print".to_owned()).expect("token"),
    );
    assert!(!candidate.debug_string().contains("do-not-print"));
}

#[test]
fn stdin_accepts_one_line_and_never_exposes_it_in_debug() {
    let token = token_from_stdin_bytes("super-secret\r\n".as_bytes().to_vec()).expect("token");
    assert_eq!(token.expose_secret(), "super-secret");
    assert!(!token.redacted().contains("super-secret"));
}

#[test]
fn oversized_or_binary_stdin_tokens_are_rejected() {
    let error = refused(token_from_stdin_bytes(vec![b'a'; 65537]));
    assert_eq!(error.message(), "credential token is too long");
    let error = refused(token_from_stdin_bytes(vec![0xff, 0xfe]));
    assert_eq!(error.message(), "credential token from stdin is not valid UTF-8");
    let error = refused(token_from_stdin_bytes(b"two\nlines\n".to_vec()));
    assert_eq!(error.code(), ErrorCode::InvalidInput);
}

#[test]
fn credential_collection_requires_an_explicit_noninteractive_source() {
    let error = credential_plan(false, None, false).expect_err("source is required");
    assert_eq!(error.code(), ErrorCode::InvalidInput);
    assert!(error.hint().is_some_and(|hint| hint.contains("--credential-env <NAME>")));

    let conflict = credential_plan(true, Some("KINSTA_TOKEN"), false).expect_err("sources conflict");
    assert_eq!(conflict.code(), ErrorCode::InvalidArguments);
    assert!(conflict.hint().is_some_and(|hint| hint.contains("not both")));

    let plan = credential_plan(true, None, false).expect("stdin credential");
    assert_eq!(plan, CredentialPlan::ReadStdin);
    let token = token_from_stdin_bytes(b"stdin-secret\n".to_vec()).expect("token");
    let candidate = CredentialCandidate::new(CredentialSource::Keyring, token);
    assert!(matches!(candidate.source(), CredentialSource::Keyring));
    assert_eq!(candidate.token().expose_secret(), "stdin-secret");
}

#[test]
fn keyring_and_environment_resolution_are_injectable() {
    let reference = parse_profile_ref("kinsta:agency").expect("reference");
    let stored = SecretToken::new("stored-secret".to_owned()).expect("token");
    assert_eq!(stored.expose_secret(), "stored-secret");

    let error = refused(token_from_environment("KINSTA_TOKEN", EnvironmentValue::Unset));
    assert_eq!(error.code(), ErrorCode::AuthenticationFailed);
    assert!(error.hint().is_some_and(|hint| hint.contains("KINSTA_TOKEN")));

    let error = missing_keyring_credential(&reference);
    assert_eq!(error.code(), ErrorCode::AuthenticationFailed);
    assert!(error.hint().is_some_and(|hint| hint.contains("hb profile credential set kinsta:agency")));

    let token = token_from_environment("KINSTA_TOKEN", EnvironmentValue::Text("env-secret".to_owned()))
        .expect("token");
    assert_eq!(token.expose_secret(), "env-secret");
}

#[test]
fn formatted_references_parse_back_to_themselves() {
    for text in ["kinsta:agency", "kinsta:a", "kinsta:My_Agency-2"] {
        let reference = parse_profile_ref(text).expect("reference");
        let again = parse_profile_ref(&format_profile_ref(&reference)).expect("round trip");
        assert_eq!(again, reference);
    }
}

#[test]
fn profiles_are_added_defaulted_and_removed_exactly() {
    let mut configuration = ProfileConfig::empty();
    add_profile(&mut configuration, profile("agency"), true).expect("added");
    add_profile(&mut configuration, profile("other"), false).expect("added");
    let duplicate = add_profile(&mut configuration, profile("agency"), false).expect_err("duplicate");
    assert_eq!(duplicate.code(), ErrorCode::InvalidInput);
    assert!(duplicate.hint().is_some_and(|hint| hint.contains("hostbraid profile credential set kinsta:agency")));

    let agency = parse_profile_ref("kinsta:agency").expect("reference");
    let other = parse_profile_ref("kinsta:other").expect("reference");
    assert_eq!(select_profile(&configuration, None).expect("default").name.as_str(), "agency");
    assert!(show_snapshot(&configuration, &agency).expect("shown").is_default);

    set_default_profile(&mut configuration, &other).expect("default changed");
    assert_eq!(configuration.default_profile, Some(other.clone()));

    let removed = remove_profile(&mut configuration, &other).expect("removed");
    assert_eq!(removed.name.as_str(), "other");
    assert_eq!(configuration.default_profile, None);
    assert_eq!(configuration.profiles.len(), 1);
    let missing = remove_profile(&mut configuration, &other).expect_err("already removed");
    assert_eq!(missing.code(), ErrorCode::NotFound);
    let error = select_profile(&configuration, None).expect_err("no default");
    assert_eq!(error.message(), "no default provider profile is configured");
}

#[test]
fn profile_text_is_secret_free_and_escaped() {
    let mut configuration = ProfileConfig::empty();
    add_profile(&mut configuration, profile("agency"), true).expect("added");
    let mut env_profile = profile("ci");
    env_profile.credential_source = CredentialSource::environment("KINSTA_TOKEN").expect("source");
    add_profile(&mut configuration, env_profile, false).expect("added");

    let listing = profile_list(configuration);
    assert_eq!(
        render_profile_list(&listing.profiles),
        "Provider profiles\n\n  kinsta:agency (default)  company=company-agency  credential=OS credential store\n  kinsta:ci  company=company-ci  credential=environment: KINSTA_TOKEN\n"
    );
    assert_eq!(render_profile_list(&[]), "No provider profiles are configured.\nLog in with `hb login kinsta <name>`.\n");

    let view = ProfileView::new(profile("agency"), None);
    assert!(!view.is_default);
    assert_eq!(
        render_profile_result("Profile", &view),
        "Profile: kinsta:agency\n  company: company-agency\n  credential: OS credential store\n  default: no\n"
    );
    assert_eq!(credential_source_label(&CredentialSource::Keyring), "OS credential store");
    assert_eq!(
        reference_sentence("Removed profile ", &view.reference, ".\n"),
        "Removed profile kinsta:agency.\n"
    );
}
