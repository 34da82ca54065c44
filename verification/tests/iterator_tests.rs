use metarepo::git::has_uncommitted_changes;
use metarepo::iterator::{ProjectInfo, ProjectIterator};
use metarepo::workspace::{ProjectEntry, ProjectMetadata, WorkspaceConfig};

fn empty_config() -> WorkspaceConfig {
    WorkspaceConfig::new(None, None, None, None, None, None)
}

fn url_entry(u: &str) -> ProjectEntry {
    ProjectEntry::Url(u.to_string())
}

fn tagged(url: &str, tags: &[&str]) -> ProjectEntry {
    ProjectEntry::Metadata(ProjectMetadata {
        url: url.to_string(),
        aliases: Vec::new(),
        scripts: Vec::new(),
        env: Vec::new(),
        worktree_init: None,
        bare: None,
        tags: tags.iter().map(|t| t.to_string()).collect(),
    })
}

fn create_test_config() -> WorkspaceConfig {
    let mut config = empty_config();
    config.insert_project("project-a".to_string(), url_entry("https://github.com/user/project-a.git"));
    config.insert_project("project-b".to_string(), url_entry("https://github.com/user/project-b.git"));
    config.insert_project("lib-core".to_string(), url_entry("https://github.com/user/lib-core.git"));
    config.insert_project("lib-utils".to_string(), url_entry("https://github.com/user/lib-utils.git"));
    config.insert_project("test-project".to_string(), url_entry("https://github.com/user/test-project.git"));
    config
}

fn create_test_config_with_tags() -> WorkspaceConfig {
    let mut config = empty_config();
    config.insert_project(
        "frontend-app".to_string(),
        tagged("https://github.com/user/frontend-app.git", &["frontend", "production"]),
    );
    config.insert_project(
        "backend-api".to_string(),
        tagged("https://github.com/user/backend-api.git", &["backend", "production"]),
    );
    config.insert_project("test-utils".to_string(), tagged("https://github.com/user/test-utils.git", &["test"]));
    config.insert_project(
        "legacy-project".to_string(),
        url_entry("https://github.com/user/legacy-project.git"),
    );
    config
}

/// An iterator over the configuration's projects under `/tmp/ws`, with the
/// directories (and `.git` entries) found on disk given by name.
fn iterator_for(config: &WorkspaceConfig, dirs: &[&str], git_dirs: &[&str]) -> ProjectIterator {
    let found: Vec<(bool, bool)> = config
        .project_names()
        .iter()
        .map(|n| (dirs.contains(&n.as_str()), git_dirs.contains(&n.as_str())))
        .collect();
    ProjectIterator::new(config.project_infos("/tmp/ws", &found))
}

fn names(projects: &[ProjectInfo]) -> Vec<String> {
    projects.iter().map(|p| p.name.clone()).collect()
}

#[test]
fn test_project_info_new() {
    let info = ProjectInfo::new(
        "project".to_string(),
        "/tmp/ws/project".to_string(),
        "https://github.com/user/repo.git".to_string(),
        Vec::new(),
        true,
        false,
    );
    assert_eq!(info.name, "project");
    assert_eq!(info.path, "/tmp/ws/project");
    assert_eq!(info.repo_url, "https://github.com/user/repo.git");
    assert!(info.exists);
}

#[test]
fn test_project_info_is_git_repo() {
    let info = ProjectInfo::new(
        "project".to_string(),
        "/tmp/ws/project".to_string(),
        "https://github.com/user/repo.git".to_string(),
        Vec::new(),
        true,
        false,
    );
    assert!(!info.is_git_repo());
    let info = ProjectInfo::new(
        "project".to_string(),
        "/tmp/ws/project".to_string(),
        "https://github.com/user/repo.git".to_string(),
        Vec::new(),
        true,
        true,
    );
    assert!(info.is_git_repo());
}

#[test]
fn test_project_iterator_basic() {
    let config = create_test_config();
    let projects = iterator_for(&config, &[], &[]).collect_all();
    assert_eq!(projects.len(), 5);
    let project_names = names(&projects);
    assert!(project_names.contains(&"project-a".to_string()));
    assert!(project_names.contains(&"project-b".to_string()));
    assert!(project_names.contains(&"lib-core".to_string()));
    assert!(project_names.contains(&"lib-utils".to_string()));
    assert!(project_names.contains(&"test-project".to_string()));
}

#[test]
fn test_project_iterator_with_include_patterns() {
    let config = create_test_config();
    let projects = iterator_for(&config, &[], &[])
        .with_include_patterns(vec!["lib*".to_string()])
        .collect_all();
    assert_eq!(projects.len(), 2);
    let project_names = names(&projects);
    assert!(project_names.contains(&"lib-core".to_string()));
    assert!(project_names.contains(&"lib-utils".to_string()));
}

#[test]
fn test_project_iterator_with_exclude_patterns() {
    let config = create_test_config();
    let projects = iterator_for(&config, &[], &[])
        .with_exclude_patterns(vec!["test*".to_string()])
        .collect_all();
    assert_eq!(projects.len(), 4);
    assert!(!projects.iter().any(|p| p.name == "test-project"));
}

#[test]
fn test_project_iterator_filter_existing() {
    let config = create_test_config();
    let projects = iterator_for(&config, &["project-a", "lib-core"], &[]).filter_existing().collect_all();
    assert_eq!(projects.len(), 2);
    let project_names = names(&projects);
    assert!(project_names.contains(&"project-a".to_string()));
    assert!(project_names.contains(&"lib-core".to_string()));
}

#[test]
fn test_project_iterator_filter_git_repos() {
    let config = create_test_config();
    let projects = iterator_for(&config, &["project-a", "lib-core", "project-b"], &["project-a", "lib-core"])
        .filter_git_repos()
        .collect_all();
    assert_eq!(projects.len(), 2);
    let project_names = names(&projects);
    assert!(project_names.contains(&"project-a".to_string()));
    assert!(project_names.contains(&"lib-core".to_string()));
}

#[test]
fn test_matches_pattern_exact() {
    let iterator = ProjectIterator::new(Vec::new());
    assert!(iterator.matches_pattern("project", "project"));
    assert!(!iterator.matches_pattern("project", "other"));
}

#[test]
fn test_matches_pattern_wildcard() {
    let iterator = ProjectIterator::new(Vec::new());
    assert!(iterator.matches_pattern("project-name", "*name"));
    assert!(iterator.matches_pattern("test-name", "*name"));
    assert!(!iterator.matches_pattern("project-other", "*name"));
    assert!(iterator.matches_pattern("project-name", "project*"));
    assert!(iterator.matches_pattern("project-test", "project*"));
    assert!(!iterator.matches_pattern("other-project", "project*"));
    assert!(iterator.matches_pattern("project-test-name", "project*name"));
    assert!(iterator.matches_pattern("project-name", "project*name"));
    assert!(!iterator.matches_pattern("other-test-name", "project*name"));
    assert!(iterator.matches_pattern("lib-core-utils", "lib*core*"));
    assert!(iterator.matches_pattern("lib-test-core-main", "lib*core*"));
    assert!(!iterator.matches_pattern("lib-test-main", "lib*core*"));
}

#[test]
fn test_matches_pattern_substring() {
    let iterator = ProjectIterator::new(Vec::new());
    assert!(iterator.matches_pattern("my-project-name", "project"));
    assert!(iterator.matches_pattern("project", "project"));
    assert!(!iterator.matches_pattern("other", "project"));
}

#[test]
fn test_combined_include_exclude_patterns() {
    let config = create_test_config();
    let projects = iterator_for(&config, &[], &[])
        .with_include_patterns(vec!["lib*".to_string()])
        .with_exclude_patterns(vec!["*utils".to_string()])
        .collect_all();
    assert_eq!(projects.len(), 1);
    assert_eq!(projects[0].name, "lib-core");
}

#[test]
fn test_iterator_count() {
    let config = create_test_config();
    let iterator = iterator_for(&config, &[], &[]);
    assert_eq!(iterator.count(), 5);
    let iterator = iterator_for(&config, &[], &[]).with_include_patterns(vec!["project*".to_string()]);
    assert_eq!(iterator.count(), 2);
}

#[test]
fn test_project_iterator_with_include_tags() {
    let config = create_test_config_with_tags();
    let projects = iterator_for(&config, &[], &[])
        .with_include_tags(vec!["frontend".to_string()])
        .collect_all();
    assert_eq!(projects.len(), 1);
    assert_eq!(projects[0].name, "frontend-app");
    assert!(projects[0].tags.contains(&"frontend".to_string()));
}

#[test]
fn test_project_iterator_with_exclude_tags() {
    let config = create_test_config_with_tags();
    let projects = iterator_for(&config, &[], &[])
        .with_exclude_tags(vec!["test".to_string()])
        .collect_all();
    assert_eq!(projects.len(), 3);
    assert!(!projects.iter().any(|p| p.name == "test-utils"));
}

#[test]
fn test_project_iterator_with_multiple_include_tags() {
    let config = create_test_config_with_tags();
    let projects = iterator_for(&config, &[], &[])
        .with_include_tags(vec!["production".to_string()])
        .collect_all();
    assert_eq!(projects.len(), 2);
    let project_names = names(&projects);
    assert!(project_names.contains(&"frontend-app".to_string()));
    assert!(project_names.contains(&"backend-api".to_string()));
}

#[test]
fn test_project_iterator_combined_tag_filters() {
    let config = create_test_config_with_tags();
    let projects = iterator_for(&config, &[], &[])
        .with_include_tags(vec!["production".to_string()])
        .with_exclude_tags(vec!["test".to_string()])
        .collect_all();
    assert_eq!(projects.len(), 2);
    let project_names = names(&projects);
    assert!(project_names.contains(&"frontend-app".to_string()));
    assert!(project_names.contains(&"backend-api".to_string()));
    assert!(!project_names.contains(&"test-utils".to_string()));
}

#[test]
fn test_project_iterator_tags_with_patterns() {
    let config = create_test_config_with_tags();
    let projects = iterator_for(&config, &[], &[])
        .with_include_patterns(vec!["*app".to_string()])
        .with_include_tags(vec!["frontend".to_string()])
        .collect_all();
    assert_eq!(projects.len(), 1);
    assert_eq!(projects[0].name, "frontend-app");
}

#[test]
fn test_project_iterator_projects_without_tags() {
    let config = create_test_config_with_tags();
    let projects = iterator_for(&config, &[], &[]).collect_all();
    let legacy_project = projects.iter().find(|p| p.name == "legacy-project").unwrap();
    assert!(legacy_project.tags.is_empty());
}

#[test]
fn test_project_iterator_include_tags_no_match() {
    let config = create_test_config_with_tags();
    let projects = iterator_for(&config, &[], &[])
        .with_include_tags(vec!["nonexistent".to_string()])
        .collect_all();
    assert_eq!(projects.len(), 0);
}

#[test]
fn test_project_info_with_tags() {
    let tags = vec!["frontend".to_string(), "production".to_string()];
    let info = ProjectInfo::new(
        "project".to_string(),
        "/tmp/ws/project".to_string(),
        "https://github.com/user/repo.git".to_string(),
        tags.clone(),
        true,
        false,
    );
    assert_eq!(info.tags, tags);
    assert!(info.tags.contains(&"frontend".to_string()));
    assert!(info.tags.contains(&"production".to_string()));
}

#[test]
fn test_has_uncommitted_changes_clean() {
    // A clean repository: git status --porcelain prints nothing.
    let info = ProjectInfo::new(
        "clean-repo".to_string(),
        "/ws/clean-repo".to_string(),
        "url".to_string(),
        Vec::new(),
        true,
        true,
    );
    assert!(!info.has_uncommitted_changes(Some(&Vec::new())));
}

#[test]
fn test_has_uncommitted_changes_dirty() {
    // A repository with an untracked file.
    let info = ProjectInfo::new(
        "dirty-repo".to_string(),
        "/ws/dirty-repo".to_string(),
        "url".to_string(),
        Vec::new(),
        true,
        true,
    );
    assert!(info.has_uncommitted_changes(Some(&b"?? new.txt\n".to_vec())));
}

#[test]
fn test_has_uncommitted_changes_not_git_repo() {
    // A directory without .git: whatever git prints, there is nothing to commit.
    let info = ProjectInfo::new(
        "not-git".to_string(),
        "/ws/not-git".to_string(),
        "url".to_string(),
        Vec::new(),
        true,
        false,
    );
    assert!(!info.has_uncommitted_changes(Some(&b"fatal: not a git repository\n".to_vec())));
    assert!(!info.has_uncommitted_changes(None));
}

#[test]
fn status_bits_of_a_clean_repository_show_no_change() {
    // A clean repository reports no file status, or only unchanged files.
    assert!(!has_uncommitted_changes(&Vec::new()));
    assert!(!has_uncommitted_changes(&vec![0]));
}

#[test]
fn status_bits_of_an_untracked_file_show_a_change() {
    // An untracked file in the working tree (WT_NEW).
    assert!(has_uncommitted_changes(&vec![0, 1 << 7]));
}

#[test]
fn status_bits_of_ignored_files_show_no_change() {
    // Ignored files (IGNORED, bit 14) are no change to commit.
    assert!(!has_uncommitted_changes(&vec![1 << 14]));
}

fn uncommitted_config() -> WorkspaceConfig {
    let mut config = empty_config();
    config.insert_project("clean".to_string(), url_entry("url"));
    config.insert_project("dirty".to_string(), url_entry("url"));
    config.insert_project("plain".to_string(), url_entry("url"));
    config
}

#[test]
fn test_filter_only_uncommitted() {
    let config = uncommitted_config();
    let dirty = vec!["dirty".to_string()];
    let projects = iterator_for(&config, &["clean", "dirty", "plain"], &["clean", "dirty"])
        .filter_only_uncommitted(&dirty)
        .collect_all();
    assert_eq!(projects.len(), 1);
    assert_eq!(projects[0].name, "dirty");
}

#[test]
fn test_filter_exclude_uncommitted() {
    let config = uncommitted_config();
    let dirty = vec!["dirty".to_string()];
    let projects = iterator_for(&config, &["clean", "dirty", "plain"], &["clean", "dirty"])
        .filter_exclude_uncommitted(&dirty)
        .collect_all();
    let names: Vec<&str> = projects.iter().map(|p| p.name.as_str()).collect();
    assert_eq!(projects.len(), 2);
    assert!(names.contains(&"clean"));
    assert!(names.contains(&"plain"));
    assert!(!names.contains(&"dirty"));
}

#[test]
fn iterator_yields_in_workspace_order_and_counts_match() {
    let config = create_test_config();
    let mut it = iterator_for(&config, &[], &[]).with_include_patterns(vec!["*-*".to_string()]);
    let n = it.count();
    let mut seen = Vec::new();
    while let Some(p) = it.next() {
        seen.push(p.name);
    }
    assert_eq!(seen.len(), n);
    assert_eq!(seen, vec!["project-a", "project-b", "lib-core", "lib-utils", "test-project"]);
}

#[test]
fn project_paths_are_joined_under_the_workspace() {
    let config = create_test_config();
    let found = vec![(false, false); 5];
    let infos = config.project_infos("/tmp/ws", &found);
    assert_eq!(infos[0].path, "/tmp/ws/project-a");
    assert_eq!(infos[0].repo_url, "https://github.com/user/project-a.git");
    let infos = config.project_infos("/tmp/ws/", &found);
    assert_eq!(infos[2].path, "/tmp/ws/lib-core");
}

#[test]
fn only_change_flags_count_as_uncommitted() {
    // Index and working-tree changes count; unchanged, unreadable, ignored
    // and conflicted files do not.
    let counted = [0, 1, 2, 3, 4, 7, 8, 9, 10, 11];
    for bit in 0..16u32 {
        assert_eq!(has_uncommitted_changes(&vec![1 << bit]), counted.contains(&bit), "bit {}", bit);
    }
}
