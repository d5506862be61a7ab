use work::errors::WorktreeError;
use work::paths::{
    clean_path, file_name, join_path, normalize_path_for_git, parent_path, path_starts_with,
    paths_equal, rewrite_extended_prefix, validate_branch_name, validate_worktree_name,
    validate_worktree_path, PathProbe,
};

#[test]
fn test_validate_worktree_name_valid() {
    assert!(validate_worktree_name("feature-auth").is_ok());
    assert!(validate_worktree_name("bug_fix_123").is_ok());
    assert!(validate_worktree_name("main").is_ok());
}

#[test]
fn test_validate_worktree_name_invalid() {
    assert!(validate_worktree_name("").is_err());
    assert!(validate_worktree_name(".hidden").is_err());
    assert!(validate_worktree_name("feature auth").is_err());
    assert!(validate_worktree_name("HEAD").is_err());
}

#[test]
fn test_validate_branch_name_valid() {
    assert!(validate_branch_name("main").is_ok());
    assert!(validate_branch_name("feature/auth").is_ok());
    assert!(validate_branch_name("bug-fix-123").is_ok());
}

#[test]
fn test_validate_branch_name_invalid() {
    assert!(validate_branch_name("").is_err());
    assert!(validate_branch_name("-main").is_err());
    assert!(validate_branch_name("main-").is_err());
    assert!(validate_branch_name("feature..auth").is_err());
}

#[test]
fn test_validate_name_error_variants() {
    assert!(matches!(
        validate_worktree_name("feature auth"),
        Err(WorktreeError::InvalidName(_))
    ));
    assert!(matches!(
        validate_branch_name("feature..auth"),
        Err(WorktreeError::InvalidBranchName(_))
    ));
}

#[test]
fn test_normalize_path_for_git_basic() {
    let normalized = normalize_path_for_git("/usr/local/bin");
    assert_eq!(normalized, "/usr/local/bin");
}

#[test]
fn test_normalize_path_for_git_with_dots() {
    let normalized = normalize_path_for_git("/usr/local/../bin/./test");
    assert_eq!(normalized, "/usr/bin/test");
}

#[test]
fn test_normalize_path_for_git_windows_extended_path() {
    // The double leading separator collapses; the rest passes through a
    // plain component-wise clean.
    let normalized = normalize_path_for_git("//?/C:/Users/test");
    assert_eq!(normalized, "/?/C:/Users/test");
}

#[test]
fn test_normalize_path_for_git_windows_unc_path() {
    let normalized = normalize_path_for_git("//?/UNC/server/share");
    assert_eq!(normalized, "/?/UNC/server/share");
}

#[test]
fn test_rewrite_extended_prefix_plain() {
    assert_eq!(rewrite_extended_prefix("//?/C:/Users/test"), "C:/Users/test");
}

#[test]
fn test_rewrite_extended_prefix_unc() {
    assert_eq!(rewrite_extended_prefix("//?/UNC/server/share"), "//server/share");
}

#[test]
fn test_rewrite_extended_prefix_untouched() {
    assert_eq!(rewrite_extended_prefix("/usr/local/bin"), "/usr/local/bin");
}

#[test]
fn test_clean_path_simple() {
    let cleaned = clean_path("/a/b/c");
    assert_eq!(cleaned, "/a/b/c");
}

#[test]
fn test_clean_path_with_double_dot() {
    let cleaned = clean_path("/a/b/../c");
    assert_eq!(cleaned, "/a/c");
}

#[test]
fn test_clean_path_with_single_dot() {
    let cleaned = clean_path("/a/./b/./c");
    assert_eq!(cleaned, "/a/b/c");
}

#[test]
fn test_clean_path_cannot_escape_root() {
    let cleaned = clean_path("/../a");
    assert_eq!(cleaned, "/a");
}

#[test]
fn test_path_starts_with_components() {
    assert!(path_starts_with("/r/w", "/r"));
    assert!(path_starts_with("/r", "/r"));
    assert!(!path_starts_with("/rw", "/r"));
    assert!(!path_starts_with("/r", "/r/w"));
    assert!(!path_starts_with("a/b", "/a"));
}

#[test]
fn test_paths_equal_ignores_trailing_separator() {
    assert!(paths_equal("/a/b", "/a/b/"));
    assert!(!paths_equal("/a/b", "/a/c"));
    assert!(!paths_equal("/a", "a"));
}

#[test]
fn test_file_name_and_parent() {
    assert_eq!(file_name("/home/user/project"), Some("project".to_string()));
    assert_eq!(file_name("/"), None);
    assert_eq!(parent_path("/home/user"), Some("/home".to_string()));
    assert_eq!(parent_path("/a"), Some("/".to_string()));
    assert_eq!(parent_path("/"), None);
}

#[test]
fn test_join_path() {
    assert_eq!(join_path("/home", "repo.worktrees"), "/home/repo.worktrees");
    assert_eq!(join_path("/", "x"), "/x");
    assert_eq!(join_path("", "x"), "x");
}

#[test]
fn test_validate_worktree_path_cases() {
    let free = PathProbe { exists: false, is_dir: false, has_git_marker: false };
    assert!(validate_worktree_path("/elsewhere/wt", "/repo", free).is_ok());
    assert!(matches!(
        validate_worktree_path("relative/wt", "/repo", free),
        Err(WorktreeError::InvalidPath(_))
    ));
    assert!(matches!(
        validate_worktree_path("/repo/inner", "/repo", free),
        Err(WorktreeError::InvalidPath(_))
    ));
    let plain_file = PathProbe { exists: true, is_dir: false, has_git_marker: false };
    assert!(matches!(
        validate_worktree_path("/elsewhere/wt", "/repo", plain_file),
        Err(WorktreeError::InvalidPath(_))
    ));
    let no_marker = PathProbe { exists: true, is_dir: true, has_git_marker: false };
    assert!(matches!(
        validate_worktree_path("/elsewhere/wt", "/repo", no_marker),
        Err(WorktreeError::InvalidPath(_))
    ));
    let marked = PathProbe { exists: true, is_dir: true, has_git_marker: true };
    assert!(validate_worktree_path("/elsewhere/wt", "/repo", marked).is_ok());
}
