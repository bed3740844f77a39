use hostbraid::context::{confirmation_accepted, Context};
use hostbraid::cli::{ColorChoice, GuideTopic, OutputFormat};
use hostbraid::error::ErrorCode;
use hostbraid::guide::{default_topic, guide_document, guide_documents};
use hostbraid::search::{
    collect_commands, rank_documents, score, search_documents, search_query, search_warnings,
    CommandNode, SearchDocument, SearchKind,
};
use hostbraid::welcome::{command_categories, command_width, welcome};

fn fuzzy(query: &str, name: &str) -> u16 {
    let similarity = strsim::jaro_winkler(&query.to_lowercase(), &name.to_lowercase());
    if similarity >= 0.78 {
        (similarity * 400.0) as u16
    } else {
        0
    }
}

fn document() -> SearchDocument {
    SearchDocument {
        kind: SearchKind::Command,
        name: "hostbraid doctor".to_owned(),
        summary: "Check local tools".to_owned(),
        details: "SSH and transfer diagnostics".to_owned(),
        usage: "hostbraid doctor --help".to_owned(),
    }
}

#[test]
fn exact_name_beats_description_match() {
    let d = document();
    assert_eq!(score("hostbraid doctor", &d, fuzzy("hostbraid doctor", &d.name)), 1000);
    assert_eq!(score("transfer", &d, fuzzy("transfer", &d.name)), 500);
}

#[test]
fn unrelated_query_does_not_match() {
    let d = document();
    assert_eq!(score("pineapple", &d, fuzzy("pineapple", &d.name)), 0);
}

#[test]
fn score_tiers_follow_name_then_summary() {
    let d = document();
    assert_eq!(score("HOSTBRAID", &d, 0), 900);
    assert_eq!(score("doctor", &d, 0), 800);
    assert_eq!(score("local", &d, 0), 650);
    assert_eq!(score("zzz", &d, 123), 123);
}

fn node(name: &str, about: &str, children: Vec<CommandNode>) -> CommandNode {
    CommandNode {
        name: name.to_owned(),
        about: Some(about.to_owned()),
        long_about: None,
        hidden: false,
        children,
    }
}

fn tree() -> CommandNode {
    node(
        "hostbraid",
        "Hosting workflows",
        vec![
            node("doctor", "Check local tools", Vec::new()),
            node("ssh", "Remote access", vec![node("run", "Run a command", Vec::new()), node("help", "Print help", Vec::new())]),
            node("help", "Print help", Vec::new()),
        ],
    )
}

#[test]
fn generated_help_aliases_do_not_duplicate_commands() {
    let mut documents = Vec::new();
    collect_commands(&tree(), "", &mut documents);
    let names: Vec<String> = documents.into_iter().map(|document| document.name).collect();
    assert_eq!(names, vec!["hostbraid", "hostbraid doctor", "hostbraid ssh", "hostbraid ssh run"]);
    assert!(names.iter().all(|name| !name.contains(" help")));
}

#[test]
fn documents_include_every_guide_with_its_usage() {
    let guides: Vec<_> = guide_documents().into_iter().map(|g| (g, format!("Body of {}", g.topic))).collect();
    let documents = search_documents(&tree(), &guides);
    assert_eq!(documents.len(), 4 + 5);
    let last = &documents[8];
    assert_eq!(last.kind, SearchKind::Guide);
    assert_eq!(last.name, "security");
    assert_eq!(last.usage, "hostbraid guide security");
    assert_eq!(last.details, "Body of security");
    assert_eq!(documents[0].usage, "hostbraid --help");
    assert_eq!(documents[0].details, "Hosting workflows");
}

#[test]
fn results_rank_by_score_then_name_and_respect_the_limit() {
    let guides: Vec<_> = guide_documents().into_iter().map(|g| (g, String::new())).collect();
    let documents = search_documents(&tree(), &guides);
    let scores: Vec<u16> = documents.iter().map(|d| fuzzy("ssh", &d.name)).collect();
    let results = rank_documents("ssh", documents, &scores, 10);
    let names: Vec<&str> = results.iter().map(|r| r.name.as_str()).collect();
    assert_eq!(names[0], "hostbraid ssh");
    assert_eq!(names[1], "hostbraid ssh run");
    assert!(results.windows(2).all(|w| w[0].score >= w[1].score));

    let guides: Vec<_> = guide_documents().into_iter().map(|g| (g, String::new())).collect();
    let documents = search_documents(&tree(), &guides);
    let scores = vec![0u16; documents.len()];
    let limited = rank_documents("hostbraid", documents, &scores, 2);
    assert_eq!(limited.len(), 2);
    assert_eq!(limited[0].name, "hostbraid");
    assert_eq!(limited[1].name, "hostbraid doctor");
}

#[test]
fn blank_queries_are_rejected_and_misses_warn() {
    let error = search_query("   ").expect_err("blank");
    assert_eq!(error.code(), ErrorCode::InvalidInput);
    assert_eq!(error.hint(), Some("Try `hostbraid search ssh` or `hostbraid guide --list`."));
    assert_eq!(search_query("  ssh ").expect("query"), "ssh");
    let warnings = search_warnings("zzz", false);
    assert_eq!(warnings[0].code, "no_matches");
    assert_eq!(warnings[0].message, "No commands or guides matched `zzz`");
    assert!(search_warnings("ssh", true).is_empty());
}

#[test]
fn guides_are_listed_in_topic_order() {
    let topics: Vec<&str> = guide_documents().iter().map(|g| g.topic).collect();
    assert_eq!(topics, vec!["getting-started", "humans", "agents", "concepts", "security"]);
    assert_eq!(guide_document(GuideTopic::Agents).title, "Using HostBraid from an agent");
    assert_eq!(default_topic(None), GuideTopic::GettingStarted);
}

#[test]
fn no_arguments_lists_every_command_category() {
    let categories = command_categories(&tree());
    assert_eq!(
        categories,
        vec![
            ("hostbraid doctor".to_owned(), "Check local tools".to_owned()),
            ("hostbraid ssh".to_owned(), "Remote access".to_owned()),
        ]
    );
    assert_eq!(command_width(&categories), "hostbraid doctor".len());
    let data = welcome("0.1.0", false);
    assert_eq!(data.next_steps, vec!["hostbraid guide getting-started", "hostbraid doctor", "hostbraid search <term>"]);
}

#[test]
fn non_interactive_confirmation_explains_both_safe_recovery_paths() {
    let context = Context {
        output: OutputFormat::Human,
        interactive: false,
        quiet: true,
        color: ColorChoice::Never,
    };

    let error = context.require_interactive().expect_err("non-interactive confirmation must be explicit");

    assert_eq!(error.code(), ErrorCode::PolicyDenied);
    assert_eq!(error.message(), "HostBraid cannot ask for confirmation because input is non-interactive");
    assert_eq!(error.hint(), Some("Rerun in a terminal, or add `--yes` after reviewing the action."));
    assert!(!error.message().contains("target"));
    assert!(!error.hint().is_some_and(|hint| hint.contains("target")));
}

#[test]
fn confirmation_answers_and_terminal_settings() {
    assert!(confirmation_accepted(" Y\n"));
    assert!(confirmation_accepted("yes"));
    assert!(!confirmation_accepted("yep"));
    assert!(!confirmation_accepted(""));
    let context = Context::new(OutputFormat::Json, false, true, false, ColorChoice::Always);
    assert!(!context.interactive);
    assert!(!context.colors_enabled(true, false));
    assert!(!context.spinner_visible(true));
    let human = Context::new(OutputFormat::Human, false, true, false, ColorChoice::Auto);
    assert!(human.interactive);
    assert!(human.colors_enabled(true, false));
    assert!(!human.colors_enabled(true, true));
}

#[test]
fn completion_scripts_are_refused_in_machine_mode() {
    let machine = Context::new(OutputFormat::Json, true, false, false, ColorChoice::Never);
    let error = machine.require_script_output().expect_err("JSON cannot carry a script");
    assert_eq!(error.code(), ErrorCode::InvalidInput);
    assert_eq!(error.message(), "shell completion output is a script, not JSON");
    assert_eq!(error.hint(), Some("Run `hb completion <shell>` without `--output json`."));
    let human = Context::new(OutputFormat::Human, true, false, false, ColorChoice::Never);
    assert!(human.require_script_output().is_ok());
}
