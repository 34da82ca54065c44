use metarepo::import::{link_step, plan_import, records_in_gitignore, ImportContext, ImportError, ImportPlan, NestedStep};
use metarepo::select::parse_env_pair;
use metarepo::workspace::{ConversionCheck, ProjectEntry, ProjectMetadata, WorkspaceConfig};
use metarepo::worktree::{removal_check, RemovalCheck, WorktreeInfo};

fn strings(v: &[&str]) -> Vec<String> {
    v.iter().map(|s| s.to_string()).collect()
}

fn tags_of(config: &WorkspaceConfig, name: &str) -> Vec<String> {
    config.get_project(name).unwrap().tags()
}

#[test]
fn tags_are_added_once_and_removed() {
    let mut config = WorkspaceConfig::new(None, None, None, None, None, None);
    config.insert_project("web".to_string(), ProjectEntry::Url("git@x:web.git".to_string()));
    assert!(config.add_tags("web", &strings(&["frontend", "prod", "frontend"])));
    assert_eq!(tags_of(&config, "web"), strings(&["frontend", "prod"]));
    assert_eq!(config.get_project_url("web"), Some("git@x:web.git".to_string()));
    assert!(config.add_tags("web", &strings(&["prod", "beta"])));
    assert_eq!(tags_of(&config, "web"), strings(&["frontend", "prod", "beta"]));
    assert!(config.remove_tags("web", &strings(&["prod", "missing"])));
    assert_eq!(tags_of(&config, "web"), strings(&["frontend", "beta"]));
    assert!(!config.add_tags("api", &strings(&["x"])));
    assert!(!config.remove_tags("api", &strings(&["x"])));
    assert_eq!(config.project_count(), 1);
}

#[test]
fn removing_tags_from_a_bare_url_changes_nothing() {
    let mut config = WorkspaceConfig::new(None, None, None, None, None, None);
    config.insert_project("lib".to_string(), ProjectEntry::Url("u".to_string()));
    assert!(config.remove_tags("lib", &strings(&["a"])));
    assert!(matches!(config.get_project("lib"), Some(ProjectEntry::Url(u)) if u == "u"));
}

#[test]
fn adding_a_project_is_planned_from_the_disk() {
    assert!(matches!(plan_import(true, None, false, false, false, true, true), ImportPlan::AlreadyListed));
    assert!(matches!(
        plan_import(false, Some("https://h/r.git"), false, false, false, false, false),
        ImportPlan::CloneFrom(u) if u == "https://h/r.git"
    ));
    assert!(matches!(plan_import(false, Some("../ext"), true, true, true, false, false), ImportPlan::LinkExternal));
    // The target's existence is checked only once the remote has been read.
    assert!(matches!(plan_import(false, Some("../ext"), true, true, true, true, false), ImportPlan::LinkExternal));
    assert!(matches!(link_step(true), ImportPlan::TargetExists));
    assert!(matches!(link_step(false), ImportPlan::LinkExternal));
    assert!(matches!(plan_import(false, Some("sub"), false, true, true, true, true), ImportPlan::UseSourceRepository));
    assert!(matches!(plan_import(false, Some("../ext"), true, true, false, false, false), ImportPlan::SourceNotGit));
    assert!(matches!(
        plan_import(false, Some("../gone"), true, false, false, false, false),
        ImportPlan::CloneFrom(u) if u == "../gone"
    ));
    assert!(matches!(plan_import(false, None, false, false, false, true, true), ImportPlan::UseLocalRepository));
    assert!(matches!(plan_import(false, None, false, false, false, true, false), ImportPlan::InitLocal));
    assert!(matches!(plan_import(false, None, false, false, false, false, false), ImportPlan::NothingToImport));
    assert!(!records_in_gitignore("local:app"));
    assert!(records_in_gitignore("git@h:app.git"));
}

fn wt(path: &str, bare: bool) -> WorktreeInfo {
    WorktreeInfo { branch: String::new(), path: path.to_string(), is_bare: bare, is_detached: false, head: None }
}

#[test]
fn removal_is_refused_for_uncommitted_changes() {
    let ws = vec![(wt("/p/.git", true), true), (wt("/p/main", false), false), (wt("/p/feat", false), true)];
    assert!(matches!(removal_check(false, true, true, &ws, false), RemovalCheck::DirtyWorktree(n) if n == "feat"));
    assert!(matches!(removal_check(true, true, true, &ws, false), RemovalCheck::Allowed));
    assert!(matches!(removal_check(false, false, true, &ws, false), RemovalCheck::Allowed));
    assert!(matches!(removal_check(false, true, false, &Vec::new(), true), RemovalCheck::DirtyRepository));
    assert!(matches!(removal_check(false, true, false, &Vec::new(), false), RemovalCheck::Allowed));
    let clean = vec![(wt("/p/.git", true), true), (wt("/p/main", false), false)];
    assert!(matches!(removal_check(false, true, true, &clean, true), RemovalCheck::Allowed));
}

#[test]
fn cycle_and_depth_messages() {
    let cycle = ImportError::Cycle { path: strings(&["A", "B", "A"]) };
    assert_eq!(
        cycle.message(),
        "Circular dependency detected!\n  A → B → A\n\nCycle path:\n  1. A\n  2. B\n  3. A (CYCLE!)"
    );
    let depth = ImportError::MaxDepthExceeded { max_depth: 12 };
    assert_eq!(depth.message(), "Maximum recursion depth (12) exceeded. Use --max-depth to increase the limit.");
}

#[test]
fn reentering_an_import_reports_the_cycle() {
    let mut ctx = ImportContext::new("/ws".to_string(), None);
    assert!(ctx.enter_import("A").is_ok());
    assert!(ctx.enter_import("B").is_ok());
    let err = ctx.enter_import("A").unwrap_err();
    assert!(err.message().contains("A → B → A"));
}

#[test]
fn nested_steps_follow_the_url_and_the_disk() {
    let mut ctx = ImportContext::new("/ws".to_string(), None);
    assert!(matches!(ctx.begin_nested("git@h:a.git", true), NestedStep::SkipExisting));
    assert!(matches!(ctx.begin_nested("local:b", false), NestedStep::SkipLocal));
    assert!(matches!(ctx.begin_nested("external:local:c", false), NestedStep::SkipLocalExternal));
    match ctx.begin_nested("external:https://h/d.git", false) {
        NestedStep::Clone(u) => assert_eq!(u, "https://h/d.git"),
        _ => panic!("expected a clone"),
    }
    assert!(matches!(ctx.begin_nested("external:https://h/d.git", false), NestedStep::Refused(ImportError::Cycle { .. })));
    assert!(ctx.should_descend(true));
    assert!(!ctx.should_descend(false));
    ctx.exit_import();
}

#[test]
fn nested_queue_skips_ignored_projects() {
    let mut nested = WorkspaceConfig::new(None, None, None, None, None, None);
    nested.insert_project("a".to_string(), ProjectEntry::Url("ua".to_string()));
    nested.insert_project("skip".to_string(), ProjectEntry::Url("us".to_string()));
    nested.insert_project("c".to_string(), ProjectEntry::Url("uc".to_string()));
    let cfg = metarepo::import::NestedConfig {
        recursive_import: true,
        max_depth: 3,
        flatten: false,
        cycle_detection: true,
        ignore_nested: strings(&["skip"]),
    };
    let ctx = ImportContext::new("/ws".to_string(), Some(&cfg));
    assert_eq!(
        ctx.nested_queue(&nested),
        vec![("a".to_string(), "ua".to_string()), ("c".to_string(), "uc".to_string())]
    );
}

#[test]
fn environment_settings_split_at_the_first_equals() {
    assert_eq!(parse_env_pair("KEY=VALUE"), Some(("KEY".to_string(), "VALUE".to_string())));
    assert_eq!(parse_env_pair("A=b=c"), Some(("A".to_string(), "b=c".to_string())));
    assert_eq!(parse_env_pair("EMPTY="), Some(("EMPTY".to_string(), String::new())));
    assert_eq!(parse_env_pair("NOEQUALS"), None);
}

#[test]
fn conversion_to_bare_checks_in_order() {
    let mut config = WorkspaceConfig::new(None, None, None, None, None, None);
    config.insert_project("plain".to_string(), ProjectEntry::Url("u".to_string()));
    config.insert_project(
        "bare".to_string(),
        ProjectEntry::Metadata(ProjectMetadata {
            url: "u".to_string(),
            aliases: Vec::new(),
            scripts: Vec::new(),
            env: Vec::new(),
            worktree_init: None,
            bare: Some(true),
            tags: Vec::new(),
        }),
    );
    assert_eq!(config.conversion_check("missing", true, true), ConversionCheck::NotListed);
    assert_eq!(config.conversion_check("plain", false, true), ConversionCheck::NoDirectory);
    assert_eq!(config.conversion_check("bare", true, false), ConversionCheck::AlreadyBare);
    assert_eq!(config.conversion_check("plain", true, false), ConversionCheck::NotGit);
    assert_eq!(config.conversion_check("plain", true, true), ConversionCheck::Convert);
}
