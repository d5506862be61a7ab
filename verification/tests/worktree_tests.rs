use work::worktree::{branch_to_dirname, Worktree, WorktreeStatus};

#[test]
fn test_worktree_creation() {
    let worktree = Worktree::new(
        "feature-auth".to_string(),
        "feature-auth".to_string(),
        "/home/user/project/worktrees/feature-auth".to_string(),
        false,
        false,
        false,
        Some("abc123".to_string()),
        Some("origin/feature-auth".to_string()),
    );

    assert_eq!(worktree.dirname, "feature-auth");
    assert_eq!(worktree.branch_name, "feature-auth");
    assert_eq!(worktree.is_current, false);
    assert_eq!(worktree.head_commit, Some("abc123".to_string()));
}

#[test]
fn test_find_current_worktree() {
    let worktrees = vec![
        Worktree::new(
            "main".to_string(),
            "main".to_string(),
            "/home/user/project".to_string(),
            true,
            false,
            false,
            Some("abc123".to_string()),
            None,
        ),
        Worktree::new(
            "feature-auth".to_string(),
            "feature-auth".to_string(),
            "/home/user/project/worktrees/feature-auth".to_string(),
            false,
            false,
            false,
            Some("def456".to_string()),
            None,
        ),
    ];

    let current = Worktree::find_current_worktree(&worktrees);
    assert!(current.is_some());
    assert_eq!(current.unwrap().dirname, "main");
}

#[test]
fn test_worktree_status() {
    let worktree = Worktree::new(
        "feature-auth".to_string(),
        "feature-auth".to_string(),
        "/home/user/project/worktrees/feature-auth".to_string(),
        false,
        false,
        false,
        Some("abc123".to_string()),
        None,
    );

    let status = worktree.get_status(false);
    assert_eq!(status, WorktreeStatus::Healthy);
}

#[test]
fn test_detached_worktree_status() {
    let worktree = Worktree::new(
        "detached-head".to_string(),
        "HEAD".to_string(),
        "/home/user/project/worktrees/detached".to_string(),
        false,
        false,
        true,
        Some("abc123".to_string()),
        None,
    );

    let status = worktree.get_status(false);
    assert_eq!(status, WorktreeStatus::Detached);
}

#[test]
fn test_modified_worktree_status() {
    let worktree = Worktree::new(
        "feature-auth".to_string(),
        "feature-auth".to_string(),
        "/home/user/project/worktrees/feature-auth".to_string(),
        false,
        false,
        false,
        Some("abc123".to_string()),
        None,
    );

    assert_eq!(worktree.get_status(true), WorktreeStatus::Modified);
}

#[test]
fn test_detached_takes_priority_over_modified() {
    let worktree = Worktree::new(
        "detached-head".to_string(),
        "HEAD".to_string(),
        "/home/user/project/worktrees/detached".to_string(),
        false,
        false,
        true,
        Some("abc123".to_string()),
        None,
    );

    assert_eq!(worktree.get_status(true), WorktreeStatus::Detached);
}

#[test]
fn test_display_name_no_slash() {
    let worktree = Worktree::new(
        "main".to_string(),
        "main".to_string(),
        "/home/user/project".to_string(),
        false,
        false,
        false,
        Some("abc123".to_string()),
        None,
    );

    assert_eq!(worktree.display_name(), "main");
}

#[test]
fn test_display_name_with_slash() {
    let worktree = Worktree::new(
        "feat-feature-001".to_string(),
        "feat/feature-001".to_string(),
        "/home/user/project.worktrees/feat-feature-001".to_string(),
        false,
        false,
        false,
        Some("abc123".to_string()),
        None,
    );

    assert_eq!(worktree.display_name(), "feat-feature-001 on feat/feature-001");
}

#[test]
fn test_display_name_multiple_slashes() {
    let worktree = Worktree::new(
        "feature-auth-oauth".to_string(),
        "feature/auth/oauth".to_string(),
        "/home/user/project.worktrees/feature-auth-oauth".to_string(),
        false,
        false,
        false,
        Some("abc123".to_string()),
        None,
    );

    assert_eq!(worktree.display_name(), "feature-auth-oauth on feature/auth/oauth");
}

#[test]
fn test_branch_to_dirname_replaces_every_slash() {
    assert_eq!(branch_to_dirname("feat/x"), "feat-x");
    assert_eq!(branch_to_dirname("feature/auth/oauth"), "feature-auth-oauth");
    assert_eq!(branch_to_dirname("main"), "main");
    assert_eq!(branch_to_dirname(""), "");
}

#[test]
fn test_branch_to_dirname_idempotent() {
    let once = branch_to_dirname("feat/feature-001");
    let twice = branch_to_dirname(&once);
    assert_eq!(once, twice);
    assert_eq!(once, "feat-feature-001");
}
