use metarepo::exec::{named_projects, worktree_request};
use metarepo::select::{
    find_projects_with_script, keep_listed, script_command, select_run_targets, select_worktree_add_targets,
    select_worktree_remove_targets, Targets,
};
use metarepo::workspace::{join_path, path_file_name, ProjectEntry, ProjectMetadata, RenameError, WorkspaceConfig};

fn meta(url: &str, aliases: &[&str], scripts: &[(&str, &str)]) -> ProjectEntry {
    ProjectEntry::Metadata(ProjectMetadata {
        url: url.to_string(),
        aliases: aliases.iter().map(|a| a.to_string()).collect(),
        scripts: scripts.iter().map(|(k, v)| (k.to_string(), v.to_string())).collect(),
        env: vec![("RUST_LOG".to_string(), "debug".to_string())],
        worktree_init: None,
        bare: None,
        tags: Vec::new(),
    })
}

fn workspace() -> WorkspaceConfig {
    let mut config = WorkspaceConfig::new(
        Some(vec![("build".to_string(), "make".to_string())]),
        Some(vec![("fe".to_string(), "apps/frontend".to_string())]),
        None,
        None,
        Some("npm ci".to_string()),
        None,
    );
    config.insert_project("apps/frontend".to_string(), meta("git@x:frontend.git", &["web"], &[("test", "npm test")]));
    config.insert_project("libs/core".to_string(), ProjectEntry::Url("https://x/core.git".to_string()));
    config.insert_project("tools".to_string(), meta("https://x/tools.git", &["t"], &[("lint", "cargo clippy")]));
    config
}

fn strings(v: &[&str]) -> Vec<String> {
    v.iter().map(|s| s.to_string()).collect()
}

#[test]
fn identifiers_resolve_by_name_alias_and_basename() {
    let config = workspace();
    assert_eq!(config.resolve_project_identifier("tools"), Some("tools".to_string()));
    assert_eq!(config.resolve_project_identifier("fe"), Some("apps/frontend".to_string()));
    assert_eq!(config.resolve_project_identifier("web"), Some("apps/frontend".to_string()));
    assert_eq!(config.resolve_project_identifier("core"), Some("libs/core".to_string()));
    assert_eq!(config.resolve_project_identifier("nothing"), None);
    // worktree commands know no aliases
    assert_eq!(config.resolve_worktree_project("web"), None);
    assert_eq!(config.resolve_worktree_project("frontend"), Some("apps/frontend".to_string()));
}

#[test]
fn file_names_follow_std_path() {
    assert_eq!(path_file_name("libs/core"), Some("core".to_string()));
    assert_eq!(path_file_name("libs/core/"), Some("core".to_string()));
    assert_eq!(path_file_name("libs/core/."), Some("core".to_string()));
    assert_eq!(path_file_name("libs/.."), None);
    assert_eq!(path_file_name("/"), None);
    assert_eq!(path_file_name(""), None);
    assert_eq!(join_path("/ws", "a/b"), "/ws/a/b");
    assert_eq!(join_path("/ws/", "a"), "/ws/a");
    assert_eq!(join_path("/ws", "/abs"), "/abs");
    assert_eq!(join_path("", "a"), "a");
}

#[test]
fn rename_moves_the_entry_and_can_be_undone() {
    let mut config = workspace();
    let before = config.get_project_url("tools");
    assert_eq!(config.rename_project("tools", "devtools"), Ok(()));
    assert!(!config.contains_project("tools"));
    assert_eq!(config.get_project_url("devtools"), before);
    assert_eq!(config.rename_project("devtools", "tools"), Ok(()));
    assert_eq!(config.get_project_url("tools"), before);
    assert_eq!(config.project_count(), 3);
}

#[test]
fn rename_refusals() {
    let mut config = workspace();
    assert_eq!(config.rename_project("missing", "x"), Err(RenameError::NotFound));
    assert_eq!(config.rename_project("tools", "libs/core"), Err(RenameError::AlreadyExists));
    assert_eq!(config.project_count(), 3);
}

#[test]
fn insert_replaces_and_remove_reports() {
    let mut config = workspace();
    config.insert_project("tools".to_string(), ProjectEntry::Url("https://y/tools.git".to_string()));
    assert_eq!(config.project_count(), 3);
    assert_eq!(config.get_project_url("tools"), Some("https://y/tools.git".to_string()));
    assert!(config.remove_project("tools"));
    assert!(!config.remove_project("tools"));
    assert_eq!(config.project_count(), 2);
    assert_eq!(config.project_names(), strings(&["apps/frontend", "libs/core"]));
}

#[test]
fn plugins_are_recorded_and_forgotten() {
    let mut config = workspace();
    assert!(config.plugins().is_none());
    config.add_plugin("fmt".to_string(), "1.0".to_string());
    config.add_plugin("lint".to_string(), "file:/x".to_string());
    config.add_plugin("fmt".to_string(), "2.0".to_string());
    let plugins = config.plugins().clone().unwrap();
    assert_eq!(plugins.len(), 2);
    assert!(plugins.contains(&("fmt".to_string(), "2.0".to_string())));
    assert!(config.remove_plugin("fmt"));
    assert!(!config.remove_plugin("fmt"));
    assert_eq!(config.plugins().clone().unwrap(), vec![("lint".to_string(), "file:/x".to_string())]);
}

#[test]
fn scripts_of_the_project_override_the_workspace() {
    let mut config = workspace();
    assert_eq!(script_command(&config, "tools", "lint"), Some("cargo clippy".to_string()));
    assert_eq!(script_command(&config, "tools", "build"), Some("make".to_string()));
    assert_eq!(script_command(&config, "libs/core", "lint"), None);
    config.insert_project("libs/core".to_string(), meta("u", &[], &[("build", "cargo build")]));
    assert_eq!(script_command(&config, "libs/core", "build"), Some("cargo build".to_string()));
}

#[test]
fn projects_with_a_script() {
    let config = workspace();
    assert_eq!(find_projects_with_script(&config, "test"), strings(&["apps/frontend"]));
    // a workspace script is available everywhere
    assert_eq!(find_projects_with_script(&config, "build"), strings(&["apps/frontend", "libs/core", "tools"]));
    assert!(find_projects_with_script(&config, "deploy").is_empty());
}

#[test]
fn run_targets() {
    let config = workspace();
    let s = select_run_targets(&config, "test", &Vec::new(), Some("tools"));
    assert_eq!(s.projects, strings(&["tools"]));
    let s = select_run_targets(&config, "test", &Vec::new(), None);
    assert_eq!(s.projects, strings(&["apps/frontend"]));
    let s = select_run_targets(&config, "test", &strings(&["--all"]), None);
    assert_eq!(s.projects, strings(&["apps/frontend", "libs/core", "tools"]));
    let s = select_run_targets(&config, "test", &strings(&["web", "nope", "core"]), None);
    assert_eq!(s.projects, strings(&["apps/frontend", "libs/core"]));
    assert_eq!(s.not_found, strings(&["nope"]));
}

#[test]
fn worktree_targets() {
    let config = workspace();
    match select_worktree_add_targets(&config, &Vec::new(), None) {
        Targets::AskUser(v) => assert_eq!(v, strings(&["apps/frontend", "libs/core", "tools"])),
        _ => panic!("expected a prompt"),
    }
    match select_worktree_add_targets(&config, &strings(&["frontend", "web"]), None) {
        Targets::Chosen(s) => {
            assert_eq!(s.projects, strings(&["apps/frontend"]));
            assert_eq!(s.not_found, strings(&["web"]));
        }
        _ => panic!("expected a selection"),
    }
    let having = strings(&["tools"]);
    match select_worktree_remove_targets(&config, &Vec::new(), Some("libs/core"), &having) {
        Targets::CurrentLacksWorktree(c) => assert_eq!(c, "libs/core"),
        _ => panic!("expected a refusal"),
    }
    match select_worktree_remove_targets(&config, &strings(&["--all"]), None, &having) {
        Targets::Chosen(s) => assert_eq!(s.projects, having),
        _ => panic!("expected a selection"),
    }
    match select_worktree_remove_targets(&config, &Vec::new(), None, &Vec::new()) {
        Targets::Chosen(s) => assert!(s.projects.is_empty()),
        _ => panic!("expected an empty selection"),
    }
}

#[test]
fn requested_projects_from_flags() {
    let config = workspace();
    assert_eq!(named_projects(&config, Some("fe"), Some(" t , libs/core,zz")), strings(&["apps/frontend", "tools", "libs/core", "zz"]));
    assert_eq!(worktree_request(&config, true, Some("fe"), None), strings(&["--all"]));
    assert_eq!(worktree_request(&config, false, Some("fe"), Some("t")), strings(&["apps/frontend"]));
    assert_eq!(worktree_request(&config, false, None, Some("t,x")), strings(&["tools", "x"]));
    assert!(worktree_request(&config, false, None, None).is_empty());
}

#[test]
fn keep_only_listed_names() {
    let kept = keep_listed(&strings(&["a", "b", "c"]), &strings(&["c", "a"]));
    assert_eq!(kept, strings(&["a", "c"]));
}

#[test]
fn bare_and_worktree_init_settings() {
    let mut config = workspace();
    assert!(!config.is_bare_repo("tools"));
    assert_eq!(config.get_worktree_init("tools"), Some("npm ci".to_string()));
    config.insert_project(
        "tools".to_string(),
        ProjectEntry::Metadata(ProjectMetadata {
            url: "u".to_string(),
            aliases: Vec::new(),
            scripts: Vec::new(),
            env: Vec::new(),
            worktree_init: Some("cargo build".to_string()),
            bare: Some(true),
            tags: Vec::new(),
        }),
    );
    assert!(config.is_bare_repo("tools"));
    assert_eq!(config.get_worktree_init("tools"), Some("cargo build".to_string()));
    assert_eq!(config.project_env("apps/frontend"), vec![("RUST_LOG".to_string(), "debug".to_string())]);
    assert!(config.project_env("libs/core").is_empty());
}
