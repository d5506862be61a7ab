use work::errors::WorktreeError;
use work::registry::Registry;
use work::repository::Repository;
use work::worktree::{branch_to_dirname, Worktree};

fn record(dirname: &str, branch: &str, path: &str, is_current: bool) -> Worktree {
    Worktree::new(
        dirname.to_string(),
        branch.to_string(),
        path.to_string(),
        is_current,
        false,
        false,
        Some("abc123".to_string()),
        None,
    )
}

fn sample_registry() -> Registry {
    Registry::new(vec![
        record("main", "main", "/home/user/project", true),
        record("feat-x", "feat/x", "/home/user/project.worktrees/feat-x", false),
    ])
}

#[test]
fn test_list_and_find() {
    let reg = sample_registry();
    assert_eq!(reg.list().len(), 2);
    assert_eq!(reg.find_by_directory_name("feat-x").unwrap().branch_name, "feat/x");
    assert!(reg.find_by_directory_name("missing").is_none());
    assert_eq!(reg.find_by_branch("feat/x").unwrap().dirname, "feat-x");
    assert!(reg.find_by_branch("feat-x").is_none());
}

#[test]
fn test_conflict_when_converted_names_collide() {
    let reg = sample_registry();
    // The branch `feat-x` converts to `feat-x`, colliding with the
    // record that branch `feat/x` created.
    let candidate = branch_to_dirname("feat-x");
    let conflict = reg.check_create_conflict(&candidate).unwrap();
    assert_eq!(conflict.dirname, "feat-x");
    assert_eq!(conflict.existing_branch, "feat/x");
}

#[test]
fn test_no_conflict_for_disjoint_names() {
    let reg = sample_registry();
    let candidate = branch_to_dirname("feat/y");
    assert!(reg.check_create_conflict(&candidate).is_none());
}

#[test]
fn test_plan_create_conflict() {
    let reg = sample_registry();
    let r = reg.plan_create("feat/x", None, "/home/user/project");
    match r {
        Err(WorktreeError::DirNameConflict { dirname, existing_branch }) => {
            assert_eq!(dirname, "feat-x");
            assert_eq!(existing_branch, "feat/x");
        }
        _ => panic!("expected a directory name conflict"),
    }
}

#[test]
fn test_plan_create_default_path() {
    let reg = sample_registry();
    let plan = reg.plan_create("feat/y", None, "/home/user/project").unwrap();
    assert_eq!(plan.dirname, "feat-y");
    assert_eq!(plan.path, "/home/user/project.worktrees/feat-y");
}

#[test]
fn test_plan_create_custom_path() {
    let reg = sample_registry();
    let plan = reg.plan_create("feat/y", Some("/tmp/elsewhere"), "/home/user/project").unwrap();
    assert_eq!(plan.path, "/tmp/elsewhere");
}

#[test]
fn test_delete_current_fails_with_and_without_force() {
    let reg = sample_registry();
    assert!(matches!(
        reg.check_delete("main", false),
        Err(WorktreeError::CannotDeleteCurrent)
    ));
    assert!(matches!(
        reg.check_delete("main", true),
        Err(WorktreeError::CannotDeleteCurrent)
    ));
}

#[test]
fn test_delete_non_current_is_allowed() {
    let reg = sample_registry();
    assert_eq!(reg.check_delete("feat-x", false).unwrap(), 1);
    assert_eq!(reg.check_delete("feat-x", true).unwrap(), 1);
}

#[test]
fn test_delete_missing_name() {
    let reg = sample_registry();
    assert!(matches!(
        reg.check_delete("nope", false),
        Err(WorktreeError::NotFound(_))
    ));
}

#[test]
fn test_select_switch_target() {
    let reg = sample_registry();
    assert_eq!(reg.select_switch_target(Some("feat-x")).unwrap().dirname, "feat-x");
    assert!(matches!(
        reg.select_switch_target(Some("nope")),
        Err(WorktreeError::NotFound(_))
    ));
    // With no name, the first non-current record is chosen.
    assert_eq!(reg.select_switch_target(None).unwrap().dirname, "feat-x");

    let only_current = Registry::new(vec![record("main", "main", "/p", true)]);
    assert!(matches!(
        only_current.select_switch_target(None),
        Err(WorktreeError::NotFound(_))
    ));
}

#[test]
fn test_select_prune_targets() {
    let reg = sample_registry();
    let targets = reg.select_prune_targets(&vec![true, false]);
    assert_eq!(targets, vec![1]);
    let none = reg.select_prune_targets(&vec![true, true]);
    assert!(none.is_empty());
}

#[test]
fn test_registry_from_listing() {
    let text = "worktree /r\nHEAD abc\nbranch refs/heads/main\n\nworktree /r/w\nHEAD def\ndetached\n";
    let reg = Registry::from_listing(text, "/r/w", false, None);
    assert_eq!(reg.list().len(), 2);
    assert!(reg.list()[1].is_current);
    assert_eq!(reg.find_by_directory_name("r").unwrap().branch_name, "main");
}

#[test]
fn test_repository_info_copies_fields() {
    let repo = Repository {
        root_path: "/home/user/project".to_string(),
        is_bare: false,
        worktree_count: 2,
        default_branch: "main".to_string(),
        current_worktree: Some("main".to_string()),
    };
    let info = repo.get_repository_info();
    assert_eq!(info.root_path, "/home/user/project");
    assert_eq!(info.is_bare, false);
    assert_eq!(info.worktree_count, 2);
    assert_eq!(info.default_branch, "main");
    assert_eq!(info.current_worktree, Some("main".to_string()));
}
