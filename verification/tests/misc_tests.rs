use metarepo::exec::{buffered_parallel, comma_pieces, exec_target, run_count, trimmed_comma_pieces, ExecFilters, ExecTarget};
use metarepo::git::{answer_is_yes, branch_from_symbolic_ref, default_branch_candidates, fallback_default_branch, is_ssh_url};
use metarepo::gitignore::{gitignore_with_entry, gitignore_without_entry};
use metarepo::import::{
    clone_step, external_project_url, imported_entry, local_project_url, nested_action, nested_update_depth,
    source_is_remote, url_is_local_marker, use_bare_repository, use_recursive_import, CloneStep, ImportContext,
    NestedAction, NestedConfig,
};
use metarepo::output::{JobStatus, OutputManager, ProjectOutput};
use metarepo::plugins::{
    check_project_rules_inheritance, installed_binary_name, is_builtin_arg, is_executable_mode, plugin_source,
    read_command_reply, read_commands_reply, read_info_reply, wants_experimental, ConfigPlugin, ExecPlugin,
    PluginManagerPlugin, PluginResponse, PluginSource, PluginTemplate, ProjectPlugin, ReplyError, RulesStats,
    WorktreePlugin,
};
use metarepo::select::{choose_starting_point, parse_number, pick_from_list, plural_suffix, script_invocation, StartPoint};
use metarepo::workspace::ProjectEntry;

fn strings(v: &[&str]) -> Vec<String> {
    v.iter().map(|s| s.to_string()).collect()
}

#[test]
fn gitignore_entries_are_added_once_and_removed() {
    assert_eq!(gitignore_with_entry("", "app"), Some("app\n".to_string()));
    assert_eq!(gitignore_with_entry("target\n", "app"), Some("target\napp\n".to_string()));
    assert_eq!(gitignore_with_entry("target", "app"), Some("target\napp\n".to_string()));
    assert_eq!(gitignore_with_entry("app\n", "app"), None);
    assert_eq!(gitignore_without_entry("target\n  app \nlib\n", "app"), "target\nlib\n");
    let added = gitignore_with_entry("x\n", "p").unwrap();
    assert_eq!(gitignore_without_entry(&added, "p"), "x\n");
}

#[test]
fn import_context_detects_cycles_and_bounds_depth() {
    let mut nested = NestedConfig::standard();
    nested.max_depth = 2;
    let mut ctx = ImportContext::new("/ws".to_string(), Some(&nested));
    assert_eq!(ctx.max_depth(), 2);
    assert!(ctx.enter_import("a").is_ok());
    assert_eq!(ctx.would_create_cycle("a"), Some(strings(&["a", "a"])));
    assert!(ctx.enter_import("a").is_err());
    assert!(ctx.enter_import("b").is_ok());
    assert!(ctx.at_max_depth());
    assert!(ctx.enter_import("c").is_err());
    ctx.exit_import();
    assert!(!ctx.at_max_depth());
    assert_eq!(ctx.would_create_cycle("b"), None);
}

#[test]
fn import_decisions() {
    assert!(source_is_remote("https://x/y.git"));
    assert!(source_is_remote("git@x:y.git"));
    assert!(!source_is_remote("../y"));
    assert!(url_is_local_marker("local:app"));
    assert!(url_is_local_marker("external:git@x"));
    assert!(!url_is_local_marker("git@x"));
    assert_eq!(nested_action("external:local:/p"), NestedAction::SkipLocalExternal);
    assert_eq!(nested_action("external:git@x:y"), NestedAction::Clone("git@x:y".to_string()));
    assert_eq!(nested_action("local:a"), NestedAction::SkipLocal);
    assert_eq!(nested_action("https://x"), NestedAction::Clone("https://x".to_string()));
    assert!(!use_recursive_import(true, true, false, false, Some(true)));
    assert!(use_recursive_import(false, false, false, true, None));
    assert!(!use_recursive_import(false, false, false, false, None));
    assert!(use_bare_repository(false, None));
    assert!(!use_bare_repository(false, Some(false)));
    assert_eq!(nested_update_depth(None), Some(2));
    assert_eq!(nested_update_depth(Some(0)), None);
    assert_eq!(local_project_url("app", None), "local:app");
    assert_eq!(local_project_url("app", Some("git@x")), "git@x");
    assert_eq!(external_project_url(None, "/src/app"), "external:local:/src/app");
    assert_eq!(external_project_url(Some("git@x"), "/src/app"), "external:git@x");
    assert_eq!(clone_step(false, false, "git@x"), CloneStep::Clone);
    assert_eq!(clone_step(false, false, "local:app"), CloneStep::RefuseLocalUrl);
    assert_eq!(clone_step(true, false, "git@x"), CloneStep::Skip);
    match imported_entry("git@x".to_string(), true) {
        ProjectEntry::Metadata(m) => {
            assert_eq!(m.url, "git@x");
            assert_eq!(m.bare, Some(true));
        }
        _ => panic!("expected the full form"),
    }
    assert!(matches!(imported_entry("git@x".to_string(), false), ProjectEntry::Url(_)));
}

#[test]
fn output_manager_tracks_jobs() {
    let mut m = OutputManager::new(strings(&["a", "b", "c"]));
    assert_eq!(m.total_projects(), 3);
    assert_eq!(m.get_status_summary(), (0, 0, 0));
    m.start_project("a");
    m.start_project("b");
    assert_eq!(m.get_status_summary(), (0, 2, 0));
    m.set_project_command("a", "make".to_string());
    m.complete_project("a", 0, b"ok".to_vec(), Vec::new());
    m.complete_project("b", 2, Vec::new(), b"bad".to_vec());
    assert_eq!(m.get_status_summary(), (2, 0, 1));
    assert!(!m.all_completed());
    let a = m.get_project_output("a").unwrap();
    assert_eq!(a.status, JobStatus::Completed);
    assert_eq!(a.command, Some("make".to_string()));
    assert_eq!(a.exit_code, Some(0));
    assert!(a.duration.is_some());
    m.complete_project("c", 0, Vec::new(), Vec::new());
    assert!(m.all_completed());
    assert_eq!(m.final_tally(), (2, strings(&["b"])));
}

#[test]
fn project_output_lifecycle() {
    let mut o = ProjectOutput::new("p".to_string());
    assert_eq!(o.status, JobStatus::Pending);
    o.start();
    assert_eq!(o.status, JobStatus::Running);
    o.complete(1, Vec::new(), b"e".to_vec());
    assert_eq!(o.status, JobStatus::Failed);
    assert_eq!(o.stderr, b"e".to_vec());
}

#[test]
fn git_readings() {
    assert!(is_ssh_url("git@github.com:a/b.git"));
    assert!(is_ssh_url("ssh://host/x"));
    assert!(!is_ssh_url("https://github.com/a/b"));
    assert_eq!(branch_from_symbolic_ref("refs/remotes/origin/develop\n"), Some("develop".to_string()));
    assert_eq!(branch_from_symbolic_ref("fatal: not a symbolic ref"), None);
    assert_eq!(default_branch_candidates(), strings(&["main", "master", "develop"]));
    assert_eq!(fallback_default_branch(), "main");
    assert!(answer_is_yes(" Y\n"));
    assert!(answer_is_yes("yes"));
    assert!(answer_is_yes("YeS"));
    assert!(!answer_is_yes("no"));
    assert!(!answer_is_yes(""));
}

#[test]
fn answers_to_lists() {
    let list = strings(&["a", "b", "c"]);
    assert_eq!(pick_from_list(" ALL\n", &list), list);
    assert!(pick_from_list("  ", &list).is_empty());
    assert_eq!(pick_from_list("3, 1,9,x,+2,0", &list), strings(&["c", "a", "b"]));
    assert_eq!(parse_number(&"42".chars().collect()), Some(42));
    assert_eq!(parse_number(&"+7".chars().collect()), Some(7));
    assert_eq!(parse_number(&"-7".chars().collect()), None);
    assert_eq!(parse_number(&"+".chars().collect()), None);
    assert_eq!(parse_number(&"99999999999999999999999".chars().collect()), None);
    assert!(matches!(choose_starting_point("\n"), StartPoint::Ref(s) if s == "HEAD"));
    assert!(matches!(choose_starting_point("2"), StartPoint::Ref(s) if s == "origin/main"));
    assert!(matches!(choose_starting_point(" 3 "), StartPoint::Ref(s) if s == "origin/develop"));
    assert!(matches!(choose_starting_point("4"), StartPoint::Custom));
    assert!(matches!(choose_starting_point("9"), StartPoint::Invalid));
    assert_eq!(plural_suffix(1), "");
    assert_eq!(plural_suffix(3), "s");
}

#[test]
fn exec_choices() {
    assert_eq!(comma_pieces("a, b,,c"), strings(&["a", " b", "", "c"]));
    assert_eq!(trimmed_comma_pieces("a, b ,c"), strings(&["a", "b", "c"]));
    let none = ExecFilters {
        include_only: None,
        exclude: None,
        include_tags: None,
        exclude_tags: None,
        existing_only: false,
        git_only: false,
    };
    assert!(!none.has_filters());
    assert!(matches!(exec_target(false, &none, Vec::new(), None), ExecTarget::NoContext));
    assert!(matches!(exec_target(true, &none, Vec::new(), None), ExecTarget::Filtered));
    match exec_target(false, &none, Vec::new(), Some("app")) {
        ExecTarget::Projects(v) => assert_eq!(v, strings(&["app"])),
        _ => panic!("expected the current project"),
    }
    let git_only = ExecFilters { git_only: true, ..none };
    assert!(git_only.has_filters());
    assert!(matches!(exec_target(false, &git_only, strings(&["x"]), None), ExecTarget::Filtered));
    assert_eq!(run_count(4, true), 5);
    assert_eq!(run_count(4, false), 4);
    assert!(buffered_parallel(true, 2, false));
    assert!(!buffered_parallel(true, 1, false));
    assert!(!buffered_parallel(true, 2, true));
}

#[test]
fn plugin_identities_and_templates() {
    assert_eq!(ConfigPlugin::new().name(), "config");
    assert_eq!(ExecPlugin::new().name(), "exec");
    assert_eq!(ProjectPlugin::new().name(), "project");
    assert_eq!(WorktreePlugin::new().name(), "worktree");
    assert_eq!(PluginManagerPlugin::new().name(), "plugin");
    assert!(PluginManagerPlugin::new().is_experimental());
    assert!(!ExecPlugin::new().is_experimental());
    assert_eq!(WorktreePlugin::new().author(), "Metarepo Contributors");
    assert_eq!(PluginTemplate::from_str("RUST"), Some(PluginTemplate::Rust));
    assert_eq!(PluginTemplate::from_str("py"), Some(PluginTemplate::Python));
    assert_eq!(PluginTemplate::from_str("Node"), Some(PluginTemplate::JavaScript));
    assert_eq!(PluginTemplate::from_str("bash"), Some(PluginTemplate::Binary));
    assert_eq!(PluginTemplate::from_str("go"), None);
    assert!(wants_experimental(&strings(&["meta", "-x", "run"])));
    assert!(!wants_experimental(&strings(&["meta", "run"])));
}

#[test]
fn plugin_specs_and_replies() {
    assert!(matches!(plugin_source("file:/opt/p"), PluginSource::File(p) if p == "/opt/p"));
    assert!(matches!(plugin_source("git+https://x"), PluginSource::Git));
    assert!(matches!(plugin_source("1.2"), PluginSource::Installed));
    assert_eq!(installed_binary_name("fmt"), "metarepo-plugin-fmt");
    assert!(is_executable_mode(0o755));
    assert!(!is_executable_mode(0o644));
    assert!(is_builtin_arg("verbose"));
    assert!(!is_builtin_arg("file"));
    let info = PluginResponse::Info { name: "t".to_string(), version: "1.0.0".to_string(), experimental: false };
    assert!(matches!(read_info_reply(info), Ok((n, v, false)) if n == "t" && v == "1.0.0"));
    let err = PluginResponse::Error { message: "boom".to_string() };
    assert!(matches!(read_info_reply(err), Err(ReplyError::Plugin(m)) if m == "boom"));
    let ok = PluginResponse::Success { message: None };
    assert!(matches!(read_commands_reply(ok), Err(ReplyError::Unexpected)));
    let ok = PluginResponse::Success { message: Some("done".to_string()) };
    assert!(matches!(read_command_reply(ok), Ok(Some(m)) if m == "done"));
    assert_eq!(check_project_rules_inheritance(true), "project-specific");
    assert_eq!(check_project_rules_inheritance(false), "workspace");
    let stats = RulesStats::from_config(2, 1, 0, "workspace".to_string());
    assert_eq!(stats.total_directories, 2);
    assert_eq!(stats.source, "workspace");
}

#[test]
fn script_commands_split_on_whitespace() {
    assert_eq!(
        script_invocation("  cargo test\t--all  -q "),
        Some(("cargo".to_string(), strings(&["test", "--all", "-q"])))
    );
    assert_eq!(script_invocation("make"), Some(("make".to_string(), Vec::new())));
    assert_eq!(script_invocation("   "), None);
    assert_eq!(script_invocation(""), None);
}
