use work::gitout::{
    branches_from_output, choose_default_branch, current_worktree_name, has_changes_from_status,
    is_bare_from_output, parse_worktree_status, repository_root_from_output, upstream_from_output,
    worktree_count_from_list,
};
use work::parser::{parse_worktree_data, parse_worktrees, WorktreeData};

#[test]
fn test_parse_empty_input_yields_no_records() {
    let records = parse_worktrees("", "/elsewhere", false, None);
    assert_eq!(records.len(), 0);
}

#[test]
fn test_parse_single_group() {
    let text = "worktree /home/user/project\nHEAD abc123\nbranch refs/heads/main\n";
    let records = parse_worktrees(text, "/elsewhere", false, None);
    assert_eq!(records.len(), 1);
    assert_eq!(records[0].path, "/home/user/project");
    assert_eq!(records[0].dirname, "project");
    assert_eq!(records[0].branch_name, "main");
    assert_eq!(records[0].head_commit, Some("abc123".to_string()));
    assert_eq!(records[0].is_detached, false);
    assert_eq!(records[0].is_current, false);
}

#[test]
fn test_parse_branch_line_strips_heads_prefix() {
    let data = parse_worktree_data("worktree /r\nbranch refs/heads/main\n");
    assert_eq!(data.len(), 1);
    assert_eq!(data[0].branch, "main");
    assert_eq!(data[0].is_detached, false);
}

#[test]
fn test_parse_branch_line_strips_remotes_prefix() {
    let data = parse_worktree_data("worktree /r\nbranch refs/remotes/origin/main\n");
    assert_eq!(data.len(), 1);
    assert_eq!(data[0].branch, "origin/main");
}

#[test]
fn test_parse_detached_line_defaults_branch_to_head() {
    let data = parse_worktree_data("worktree /r\ndetached\n");
    assert_eq!(data.len(), 1);
    assert_eq!(data[0].branch, "HEAD");
    assert_eq!(data[0].is_detached, true);
}

#[test]
fn test_parse_two_groups_scenario() {
    let text = "worktree /r\nHEAD abc\nbranch refs/heads/main\n\nworktree /r/w\nHEAD def\ndetached\n";
    let records = parse_worktrees(text, "/elsewhere", false, None);
    assert_eq!(records.len(), 2);

    assert_eq!(records[0].dirname, "r");
    assert_eq!(records[0].branch_name, "main");
    assert_eq!(records[0].is_detached, false);
    assert_eq!(records[0].head_commit, Some("abc".to_string()));

    assert_eq!(records[1].dirname, "w");
    assert_eq!(records[1].branch_name, "HEAD");
    assert_eq!(records[1].is_detached, true);
    assert_eq!(records[1].head_commit, Some("def".to_string()));
}

#[test]
fn test_parse_marks_current_by_working_directory() {
    let text = "worktree /r\nHEAD abc\nbranch refs/heads/main\n";
    let records = parse_worktrees(text, "/r/sub", false, Some("origin/main".to_string()));
    assert_eq!(records.len(), 1);
    assert!(records[0].is_current);
    assert_eq!(records[0].upstream_branch, Some("origin/main".to_string()));

    let records = parse_worktrees(text, "/other", false, Some("origin/main".to_string()));
    assert!(!records[0].is_current);
    assert_eq!(records[0].upstream_branch, None);
}

#[test]
fn test_parse_group_without_worktree_key_is_discarded() {
    let records = parse_worktrees("HEAD abc\nbranch refs/heads/main\n", "/x", false, None);
    assert_eq!(records.len(), 0);
}

#[test]
fn test_parse_unrecognized_keys_ignored() {
    let data = parse_worktree_data("worktree /r\nbare\nlocked reason\nHEAD abc\n");
    assert_eq!(data.len(), 1);
    assert_eq!(data[0].head_commit, Some("abc".to_string()));
}

#[test]
fn test_derive_worktree_name_from_path() {
    let d = WorktreeData::new("/home/user/project.worktrees/feat-x".to_string());
    assert_eq!(d.derive_worktree_name(), "feat-x");
    let root = WorktreeData::new("/".to_string());
    assert_eq!(root.derive_worktree_name(), "unknown");
}

#[test]
fn test_repository_root_from_output() {
    assert_eq!(repository_root_from_output("/home/user/project\n"), "/home/user/project");
}

#[test]
fn test_is_bare_from_output() {
    assert!(is_bare_from_output("true\n"));
    assert!(!is_bare_from_output("false\n"));
}

#[test]
fn test_upstream_from_output() {
    assert_eq!(
        upstream_from_output(Some("origin/main\n")),
        Some("origin/main".to_string())
    );
    assert_eq!(upstream_from_output(Some("  \n")), None);
    assert_eq!(upstream_from_output(Some("bad @{u} answer")), None);
    assert_eq!(upstream_from_output(None), None);
}

#[test]
fn test_branches_from_output() {
    let branches = branches_from_output("main\n  feat/x\n\ndevelop\n");
    assert_eq!(branches, vec!["main".to_string(), "feat/x".to_string(), "develop".to_string()]);
}

#[test]
fn test_worktree_count_from_list() {
    assert_eq!(worktree_count_from_list(""), 0);
    assert_eq!(worktree_count_from_list("/a  abc [main]\n/b  def [x]\n"), 2);
}

#[test]
fn test_has_changes_from_status() {
    assert!(!has_changes_from_status("\n"));
    assert!(has_changes_from_status(" M file.txt\n"));
}

#[test]
fn test_parse_worktree_status_classes() {
    let out = "M  staged.txt\n M worked.txt\nMM both.txt\n?? new.txt\n";
    let info = parse_worktree_status(out);
    assert_eq!(info.staged, vec!["staged.txt".to_string(), "both.txt".to_string()]);
    assert_eq!(info.modified, vec!["worked.txt".to_string(), "both.txt".to_string()]);
    assert_eq!(info.untracked, vec!["new.txt".to_string()]);
}

#[test]
fn test_choose_default_branch() {
    assert_eq!(choose_default_branch(Some("main\n"), false, false, false), "main");
    assert_eq!(choose_default_branch(Some("develop\n"), true, true, true), "develop");
    assert_eq!(choose_default_branch(Some("  \n"), false, true, true), "master");
    assert_eq!(choose_default_branch(None, false, false, true), "develop");
    assert_eq!(choose_default_branch(None, false, false, false), "main");
}

#[test]
fn test_current_worktree_name() {
    assert_eq!(current_worktree_name("/repo", "/repo", None), "main");
    assert_eq!(
        current_worktree_name("/repo", "/repo.worktrees/feat-x", Some("/repo.worktrees/feat-x\n")),
        "feat-x"
    );
    assert_eq!(current_worktree_name("/repo", "/somewhere", Some("/repo\n")), "main");
    assert_eq!(current_worktree_name("/repo", "/somewhere", None), "main");
}
