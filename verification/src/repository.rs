use vstd::prelude::*;

verus! {

/// What is known of the repository a command runs against; assembled by
/// the caller from the VCS's own answers.
#[derive(Debug, Clone)]
pub struct Repository {
    /// Absolute path of the repository root.
    pub root_path: String,
    /// Whether the repository is bare.
    pub is_bare: bool,
    /// How many working copies the repository carries.
    pub worktree_count: usize,
    /// The default branch name.
    pub default_branch: String,
    /// The name of the working copy the caller stands in, when known.
    pub current_worktree: Option<String>,
}

impl Repository {
    /// A copy of the record, for display.
    pub fn get_repository_info(&self) -> (r: Repository)
        ensures
            r.root_path == self.root_path,
            r.is_bare == self.is_bare,
            r.worktree_count == self.worktree_count,
            r.default_branch == self.default_branch,
            r.current_worktree == self.current_worktree,
    {
        Repository {
            root_path: self.root_path.clone(),
            is_bare: self.is_bare,
            worktree_count: self.worktree_count,
            default_branch: self.default_branch.clone(),
            current_worktree: match &self.current_worktree {
                Some(c) => Some(c.clone()),
                None => None,
            },
        }
    }
}

} // verus!
