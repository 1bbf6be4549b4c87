use rngo::infer::{context_of, instructions, prompt, system_prompt};
use rngo::init::{gitignore_update, has_line, new_gitignore, spec_template};
use rngo::sim::endpoints::{
    push_request, run_directory, run_entities_url, run_stream_url, run_summary, run_systems_url,
    runs_url, PushRequest,
};
use rngo::util::config::{default_api_url, Config};
use rngo::util::document::{
    check_entities, members, DocumentError, Member, OUTPUT_MEMBER, STREAMED_OUTPUT,
};
use rngo::util::model::{
    Format, FormatType, System, SystemImport, SystemInfer, SystemInferContext,
};

#[test]
fn endpoints_are_built_from_the_api_url() {
    let api = "https://api.rngo.dev";
    assert_eq!(runs_url(api), "https://api.rngo.dev/simulationRuns");
    assert_eq!(run_entities_url(api, "r1"), "https://api.rngo.dev/simulationRuns/r1/entities");
    assert_eq!(run_systems_url(api, "r1"), "https://api.rngo.dev/simulationRuns/r1/systems");
    assert_eq!(run_stream_url(api, "r1"), "https://api.rngo.dev/simulationRuns/r1/stream");
    assert_eq!(run_directory("r1"), ".rngo/runs/r1");
}

#[test]
fn simulation_with_key_is_replaced_and_without_key_created() {
    match push_request("https://api.rngo.dev", Some("shop")) {
        PushRequest::Replace { url } => assert_eq!(url, "https://api.rngo.dev/simulations/shop"),
        other => panic!("expected a replace, got {:?}", other),
    }
    match push_request("https://api.rngo.dev", None) {
        PushRequest::Create { url } => assert_eq!(url, "https://api.rngo.dev/simulations"),
        other => panic!("expected a create, got {:?}", other),
    }
}

#[test]
fn run_summary_names_directory_and_pages() {
    assert_eq!(
        run_summary("shop", "r1"),
        vec![
            "Created and ran simulation".to_string(),
            "  fs:  .rngo/runs/r1".to_string(),
            "  sim: https://rngo.dev/simulations/shop".to_string(),
            "  run: https://rngo.dev/simulationRuns/r1".to_string(),
        ]
    );
}

#[test]
fn format_extensions() {
    assert_eq!(FormatType::Sql.extension(), "sql");
    assert_eq!(FormatType::Json.extension(), "jsonl");
}

#[test]
fn default_settings() {
    assert_eq!(default_api_url(), "https://api.rngo.dev");
    let config = Config::default();
    assert_eq!(config.api_key, None);
    assert_eq!(config.api_url, "");
    assert!(!config.is_logged_in());
}

#[test]
fn login_and_logout_change_the_key_only() {
    let config = Config { api_key: None, api_url: "https://example.test".to_string() };
    let config = config.login("k1".to_string());
    assert!(config.is_logged_in());
    assert_eq!(config.api_key, Some("k1".to_string()));
    assert_eq!(config.api_url, "https://example.test");
    let config = config.login("k2".to_string());
    assert_eq!(config.api_key, Some("k2".to_string()));
    let config = config.logout();
    assert!(!config.is_logged_in());
    assert_eq!(config.api_key, None);
    assert_eq!(config.api_url, "https://example.test");
}

#[test]
fn template_document_starts_with_the_key() {
    let template = spec_template("shop");
    assert!(template.starts_with("key: shop\nseed: 1\nentities:\n  # Define your entities here\n"));
    assert!(template.ends_with("  #       name:\n  #         type: string\n"));
    assert_eq!(template.lines().count(), 13);
}

#[test]
fn gitignore_that_lists_the_path_is_left_alone() {
    assert_eq!(gitignore_update(".rngo/simulations\n"), None);
    assert_eq!(gitignore_update("target\n  .rngo/simulations \r\nnode_modules"), None);
    assert_eq!(gitignore_update("target\n.rngo/simulations"), None);
}

#[test]
fn gitignore_gets_the_path_on_a_line_of_its_own() {
    assert_eq!(gitignore_update("target\n"), Some("target\n.rngo/simulations\n".to_string()));
    assert_eq!(gitignore_update("target"), Some("target\n.rngo/simulations\n".to_string()));
    assert_eq!(gitignore_update(""), Some("\n.rngo/simulations\n".to_string()));
    assert_eq!(
        gitignore_update("# .rngo/simulations\n.rngo/simulations/x\n"),
        Some("# .rngo/simulations\n.rngo/simulations/x\n.rngo/simulations\n".to_string())
    );
    assert_eq!(new_gitignore(), ".rngo/simulations\n");
}

#[test]
fn has_line_agrees_with_the_standard_library() {
    let samples = ["", "a", "a\n", "\na", "b\r\na\r\n", " a \n", "ab\nba", "a b", "b\n\u{a0}a\u{2003}\nc", "a\rb"];
    for sample in samples {
        let expected = sample.lines().any(|line| line.trim() == "a");
        assert_eq!(has_line(sample, "a"), expected, "{:?}", sample);
    }
}

#[test]
fn system_prompt_has_heading_description_and_fenced_output() {
    assert_eq!(system_prompt("db", None, None), "### System db");
    assert_eq!(system_prompt("db", Some("The main database."), None), "### System db\n\nThe main database.");
    assert_eq!(
        system_prompt("db", None, Some("CREATE TABLE t;\n")),
        "### System db\n\n```\nCREATE TABLE t;\n\n```"
    );
    assert_eq!(
        system_prompt("db", Some("The main database."), Some("CREATE TABLE t;")),
        "### System db\n\nThe main database.\n\n```\nCREATE TABLE t;\n```"
    );
}

#[test]
fn prompt_joins_the_sections() {
    let sections = vec!["### System a".to_string(), "### System b".to_string()];
    assert_eq!(
        prompt("Infer entities.", &sections),
        format!("Infer entities.\n{}\n\n### System a\n\n### System b", instructions(true))
    );
    assert_eq!(prompt("Infer entities.", &vec![]), format!("Infer entities.\n{}\n\n", instructions(false)));
    assert!(instructions(false).starts_with("No systems in this project provide context"));
    assert!(instructions(true).starts_with("The remainder of this section"));
}

#[test]
fn context_is_found_where_a_system_has_one() {
    let mut system = System {
        key: "db".to_string(),
        format: Format { otype: FormatType::Sql },
        import: SystemImport { command: "psql".to_string() },
        infer: None,
    };
    assert!(context_of(&system).is_none());
    system.infer = Some(SystemInfer { context: None });
    assert!(context_of(&system).is_none());
    system.infer = Some(SystemInfer {
        context: Some(SystemInferContext { description: Some("main".to_string()), command: None }),
    });
    let context = context_of(&system).expect("a context");
    assert_eq!(context.description, Some("main".to_string()));
    assert_eq!(context.command, None);
}

#[test]
fn project_without_entities_has_no_document() {
    assert_eq!(check_entities(0), Err(DocumentError::NoEntities));
    assert_eq!(check_entities(1), Ok(()));
    assert_eq!(check_entities(12), Ok(()));
}

#[test]
fn document_without_base_file_gets_the_defaults() {
    let all = members(false, Some("shop".to_string()), 2);
    assert_eq!(all.len(), 4);
    assert!(matches!(all[0], Member::Seed(1)));
    assert!(matches!(&all[1], Member::Key(key) if key == "shop"));
    assert!(matches!(all[2], Member::Systems));
    assert!(matches!(all[3], Member::Entities));
    let names: Vec<&str> = all.iter().map(|member| member.name()).collect();
    assert_eq!(names, vec!["seed", "key", "systems", "entities"]);
}

#[test]
fn document_without_known_directory_has_no_key() {
    let all = members(false, None, 0);
    assert_eq!(all.len(), 2);
    assert!(matches!(all[0], Member::Seed(1)));
    assert!(matches!(all[1], Member::Entities));
}

#[test]
fn document_with_base_file_gets_systems_and_entities_only() {
    let all = members(true, Some("shop".to_string()), 1);
    assert_eq!(all.len(), 2);
    assert!(matches!(all[0], Member::Systems));
    assert!(matches!(all[1], Member::Entities));
    let all = members(true, None, 0);
    assert_eq!(all.len(), 1);
    assert!(matches!(all[0], Member::Entities));
    assert_eq!(OUTPUT_MEMBER, "output");
    assert_eq!(STREAMED_OUTPUT, "stream");
}
