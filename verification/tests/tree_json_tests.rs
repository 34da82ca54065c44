use metarepo::git::{last_path_segment, repo_display_name};
use metarepo::json::{get_path, key_path, path_up_to, set_path, set_would_block, value_or_text, JsonValue};
use metarepo::tree::{draw_tree, insert_path, sort_names, TreeNode};
use metarepo::workspace::{project_status, url_kind, ProjectEntry, ProjectStatus, UrlKind, WorkspaceConfig};

fn parts(p: &str) -> Vec<String> {
    p.split('/').map(|s| s.to_string()).collect()
}

fn add(roots: &mut Vec<TreeNode>, path: &str, metas: &[bool], leaf_meta: bool) -> bool {
    insert_path(roots, &parts(path), &metas.to_vec(), leaf_meta)
}

#[test]
fn tree_groups_paths_and_draws_them_in_order() {
    let mut roots = Vec::new();
    for name in sort_names(&vec!["tools".to_string(), "apps/web".to_string(), "apps/api".to_string(), "meta-lib".to_string()]) {
        let n = parts(&name).len();
        let leaf_meta = name == "meta-lib";
        let awaits = insert_path(&mut roots, &parts(&name), &vec![false; n], leaf_meta);
        assert_eq!(awaits, leaf_meta);
    }
    assert_eq!(roots.len(), 3);
    assert!(roots[0].is_directory);
    assert_eq!(roots[0].children.len(), 2);
    assert_eq!(roots[0].children[0].full_path, "apps/api");
    let lines = draw_tree(&roots, "  ");
    assert_eq!(
        lines,
        vec![
            "  ├── apps/".to_string(),
            "  │   ├── api".to_string(),
            "  │   └── web".to_string(),
            "  ├── meta-lib/".to_string(),
            "  └── tools".to_string(),
        ]
    );
}

#[test]
fn inserting_twice_changes_nothing_and_symlinks_lose_the_slash() {
    let mut roots = Vec::new();
    add(&mut roots, "a/b", &[false, false], false);
    add(&mut roots, "a/b", &[false, false], false);
    assert_eq!(roots.len(), 1);
    assert_eq!(roots[0].children.len(), 1);
    roots[0].is_symlink = true;
    assert_eq!(draw_tree(&roots, ""), vec!["└── a".to_string(), "    └── b".to_string()]);
}

#[test]
fn names_are_sorted_as_strings() {
    let names = vec!["b".to_string(), "a/b".to_string(), "a".to_string(), "B".to_string()];
    assert_eq!(sort_names(&names), vec!["B", "a", "a/b", "b"]);
}

fn doc() -> JsonValue {
    JsonValue::Object(vec![
        ("default_bare".to_string(), JsonValue::Bool(true)),
        (
            "projects".to_string(),
            JsonValue::Object(vec![("app".to_string(), JsonValue::Text("git@x:app.git".to_string()))]),
        ),
        ("ignore".to_string(), JsonValue::Null),
    ])
}

fn text_of(v: Option<&JsonValue>) -> Option<String> {
    match v {
        Some(JsonValue::Text(s)) => Some(s.clone()),
        _ => None,
    }
}

#[test]
fn settings_are_read_and_written_by_key_path() {
    let d = doc();
    assert!(matches!(get_path(&d, &key_path("default_bare")), Some(JsonValue::Bool(true))));
    assert_eq!(text_of(get_path(&d, &key_path("projects.app"))), Some("git@x:app.git".to_string()));
    assert!(get_path(&d, &key_path("projects.none")).is_none());
    assert!(get_path(&d, &key_path("default_bare.x")).is_none());

    let keys = key_path("projects.app");
    assert!(!set_would_block(&d, &keys));
    let d = set_path(d, &keys, value_or_text(None, "https://x/app.git")).ok().unwrap();
    assert_eq!(text_of(get_path(&d, &keys)), Some("https://x/app.git".to_string()));

    let keys = key_path("ignore.deep");
    let d = set_path(d, &keys, JsonValue::Number("3".to_string())).ok().unwrap();
    assert!(matches!(get_path(&d, &keys), Some(JsonValue::Number(n)) if n == "3"));

    let keys = key_path("missing.x");
    let r = set_path(d, &keys, JsonValue::Null);
    assert!(matches!(r, Err(0)));
    assert_eq!(path_up_to(&keys, 0), "missing");
    assert_eq!(path_up_to(&key_path("a.b.c"), 1), "a.b");

    assert!(set_would_block(&doc(), &key_path("default_bare.x")));
}

#[test]
fn names_from_urls() {
    assert_eq!(repo_display_name("https://github.com/user/repo.git"), "repo");
    assert_eq!(repo_display_name("git@host:team/lib.git.git"), "lib");
    assert_eq!(repo_display_name("plain"), "plain");
    assert_eq!(last_path_segment("apps/web"), "web");
    assert_eq!(last_path_segment("web"), "web");
    assert_eq!(last_path_segment("apps/"), "");
}

#[test]
fn listing_readings() {
    assert_eq!(project_status(false, true, true), ProjectStatus::Missing);
    assert_eq!(project_status(true, true, false), ProjectStatus::External);
    assert_eq!(project_status(true, false, true), ProjectStatus::Active);
    assert_eq!(project_status(true, false, false), ProjectStatus::NoGit);
    assert!(matches!(url_kind("external:local:/src/x"), UrlKind::LocalPath(p) if p == "/src/x"));
    assert!(matches!(url_kind("external:git@x"), UrlKind::External(u) if u == "git@x"));
    assert!(matches!(url_kind("local:x"), UrlKind::Local));
    assert!(matches!(url_kind("https://x"), UrlKind::Remote(u) if u == "https://x"));
}

#[test]
fn missing_projects_to_clone() {
    let mut config = WorkspaceConfig::new(None, None, Some(true), None, None, None);
    config.insert_project("a".to_string(), ProjectEntry::Url("ua".to_string()));
    config.insert_project("b".to_string(), ProjectEntry::Url("ub".to_string()));
    let missing = config.missing_projects(&vec![true, false]);
    assert_eq!(missing.len(), 1);
    assert_eq!(missing[0].name, "b");
    assert_eq!(missing[0].url, "ub");
    assert!(missing[0].bare);
}
