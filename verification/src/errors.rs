use vstd::prelude::*;

verus! {

/// The error cases of the worktree registry. Validation errors are produced
/// before any external call is issued; `GitError` carries the external
/// tool's own diagnostic text verbatim.
#[derive(Debug, Clone)]
pub enum WorktreeError {
    NotFound(String),
    AlreadyExists(String),
    InvalidName(String),
    InvalidPath(String),
    GitError(String),
    IoError(String),
    UncommittedChanges,
    CannotDeleteCurrent,
    NotGitRepository(String),
    InvalidBranchName(String),
    DirNameConflict { dirname: String, existing_branch: String },
    MainRepoDetachedHead { main_repo_path: String, commit_sha: String },
    CurrentDirDetachedHead { current_path: String, commit_sha: String },
    BranchNotFound {
        branch_name: String,
        available_locals: Vec<String>,
        available_remotes: Vec<String>,
    },
    InvalidBranchSource { input: String },
}

} // verus!
