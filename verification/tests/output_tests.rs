use work::output::{format_worktree_info, validate_output_format, OutputFormat};
use work::worktree::Worktree;

#[test]
fn test_output_format_from_str() {
    assert!(matches!(OutputFormat::from_str("json"), OutputFormat::Json));
    assert!(matches!(OutputFormat::from_str("JSON"), OutputFormat::Json));
    assert!(matches!(OutputFormat::from_str("table"), OutputFormat::Table));
    assert!(matches!(OutputFormat::from_str("invalid"), OutputFormat::Table));
}

#[test]
fn test_output_format_compact_synonyms() {
    assert!(matches!(OutputFormat::from_str("compact"), OutputFormat::Compact));
    assert!(matches!(OutputFormat::from_str("simple"), OutputFormat::Compact));
    assert!(matches!(OutputFormat::from_str("SHORT"), OutputFormat::Compact));
}

#[test]
fn test_validate_output_format() {
    assert!(validate_output_format("table"));
    assert!(validate_output_format("JSON"));
    assert!(!validate_output_format("compact"));
    assert!(!validate_output_format("yaml"));
}

#[test]
fn test_format_worktree_info_full() {
    let worktree = Worktree {
        dirname: "feat-x".to_string(),
        branch_name: "feat/x".to_string(),
        path: "/home/user/project.worktrees/feat-x".to_string(),
        is_current: true,
        is_bare: false,
        is_detached: false,
        head_commit: Some("abc123".to_string()),
        upstream_branch: Some("origin/feat/x".to_string()),
        last_modified: 0,
    };
    let text = format_worktree_info(&worktree);
    assert_eq!(
        text,
        "Worktree: feat-x\n  Branch: feat/x\n  Path: /home/user/project.worktrees/feat-x\n  HEAD: abc123\n  Current: Yes\n  Detached: No\n  Upstream: origin/feat/x\n  Last Modified: 1970-01-01 00:00:00\n"
    );
}

#[test]
fn test_format_worktree_info_minimal() {
    let worktree = Worktree {
        dirname: "main".to_string(),
        branch_name: "main".to_string(),
        path: "/home/user/project".to_string(),
        is_current: false,
        is_bare: false,
        is_detached: true,
        head_commit: None,
        upstream_branch: None,
        last_modified: 0,
    };
    let text = format_worktree_info(&worktree);
    assert_eq!(
        text,
        "Worktree: main\n  Branch: main\n  Path: /home/user/project\n  HEAD: N/A\n  Current: No\n  Detached: Yes\n  Last Modified: 1970-01-01 00:00:00\n"
    );
}
