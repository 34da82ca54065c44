use metarepo::worktree::{
    add_args, branch_status, find_matching_worktree, group_by_label, label_of, local_branch_listed, matches_branch, parse_worktree_list,
    plan_worktree_add, remote_branch_ref, worktree_layout, AddArg, AddPlan, BranchStatus, WorktreeInfo,
};

const LISTING: &str = "worktree /ws/app\nHEAD 1111\nbranch refs/heads/main\n\nworktree /ws/app/.worktrees/feature\nHEAD 2222\ndetached\n\nworktree /ws/app/.git\nbare\n";

#[test]
fn porcelain_listing_is_read_record_by_record() {
    let wts = parse_worktree_list(LISTING);
    assert_eq!(wts.len(), 3);
    assert_eq!(wts[0].path, "/ws/app");
    assert_eq!(wts[0].head, Some("1111".to_string()));
    assert_eq!(wts[0].branch, "refs/heads/main");
    assert!(!wts[0].is_detached);
    assert_eq!(wts[1].path, "/ws/app/.worktrees/feature");
    assert!(wts[1].is_detached);
    assert_eq!(wts[1].branch, "");
    assert!(wts[2].is_bare);
    assert_eq!(wts[2].head, None);
}

#[test]
fn lines_before_the_first_record_are_passed_over() {
    let wts = parse_worktree_list("HEAD 9\nbare\r\nworktree /a\r\nbranch b\r\n");
    assert_eq!(wts.len(), 1);
    assert_eq!(wts[0].path, "/a");
    assert_eq!(wts[0].branch, "b");
    assert!(!wts[0].is_bare);
    assert!(parse_worktree_list("").is_empty());
}

#[test]
fn worktrees_match_by_directory_or_branch() {
    let wts = parse_worktree_list(LISTING);
    assert!(matches_branch(&wts[1], "feature"));
    assert!(matches_branch(&wts[0], "refs/heads/main"));
    assert!(!matches_branch(&wts[0], "main"));
    assert_eq!(find_matching_worktree(&wts, "feature"), Some(1));
    assert_eq!(find_matching_worktree(&wts, "nope"), None);
    assert_eq!(label_of(&wts[0]), "refs/heads/main");
    assert_eq!(label_of(&wts[1]), "feature");
}

#[test]
fn branch_lookup() {
    assert!(local_branch_listed("* feature-123\n", "feature-123"));
    assert!(!local_branch_listed("\n", "feature-123"));
    assert_eq!(remote_branch_ref("  origin/main\n  origin/feature-123\n", "feature-123"), Some("origin/feature-123".to_string()));
    assert_eq!(remote_branch_ref("  origin/main\n", "feature-123"), None);
    match branch_status(Some("  feature\n"), None, "feature") {
        BranchStatus::Local => {}
        _ => panic!("expected a local branch"),
    }
    match branch_status(Some(""), Some("  upstream/feature\n"), "feature") {
        BranchStatus::Remote(r) => assert_eq!(r, "upstream/feature"),
        _ => panic!("expected a remote branch"),
    }
    match branch_status(None, None, "feature") {
        BranchStatus::NotFound => {}
        _ => panic!("expected no branch"),
    }
}

fn texts(args: &[AddArg]) -> Vec<String> {
    args.iter()
        .map(|a| match a {
            AddArg::Text(s) => s.clone(),
            AddArg::WorktreePath => "<path>".to_string(),
        })
        .collect()
}

#[test]
fn add_plans() {
    let p = plan_worktree_add(false, None, &BranchStatus::Local);
    assert_eq!(texts(&add_args(&p, "feat")), vec!["<path>", "feat"]);
    let p = plan_worktree_add(false, None, &BranchStatus::Remote("origin/feat".to_string()));
    assert_eq!(texts(&add_args(&p, "feat")), vec!["-b", "feat", "<path>", "origin/feat"]);
    let p = plan_worktree_add(false, Some("HEAD"), &BranchStatus::NotFound);
    assert_eq!(texts(&add_args(&p, "feat")), vec!["-b", "feat", "<path>", "HEAD"]);
    let p = plan_worktree_add(false, None, &BranchStatus::NotFound);
    assert!(matches!(p, AddPlan::AskStartPoint));
    assert!(add_args(&p, "feat").is_empty());
    let p = plan_worktree_add(true, None, &BranchStatus::Local);
    assert_eq!(texts(&add_args(&p, "feat")), vec!["-b", "feat", "<path>"]);
}

#[test]
fn worktree_locations() {
    let l = worktree_layout(true, None, "feat");
    assert_eq!(l.worktree, vec!["feat"]);
    assert_eq!(l.git_dir, vec![".git"]);
    let l = worktree_layout(false, Some("f1"), "feat");
    assert_eq!(l.worktree, vec![".worktrees", "f1"]);
    assert!(l.git_dir.is_empty());
}

fn listed(project: &str, branch: &str, path: &str) -> (String, WorktreeInfo) {
    (
        project.to_string(),
        WorktreeInfo {
            branch: branch.to_string(),
            path: path.to_string(),
            is_bare: false,
            is_detached: branch.is_empty(),
            head: None,
        },
    )
}

#[test]
fn worktrees_are_grouped_by_label_in_order() {
    let entries = vec![
        listed("web", "main", "/ws/web/main"),
        listed("api", "feature", "/ws/api/feature"),
        listed("api", "", "/ws/api/detached"),
        listed("web", "feature", "/ws/web/feature"),
    ];
    let groups = group_by_label(&entries);
    let labels: Vec<&str> = groups.iter().map(|g| g.0.as_str()).collect();
    assert_eq!(labels, vec!["detached", "feature", "main"]);
    assert_eq!(
        groups[1].1,
        vec![
            ("api".to_string(), "/ws/api/feature".to_string()),
            ("web".to_string(), "/ws/web/feature".to_string())
        ]
    );
    assert_eq!(groups[2].1, vec![("web".to_string(), "/ws/web/main".to_string())]);
    assert!(group_by_label(&Vec::new()).is_empty());
}
