use vstd::prelude::*;

use crate::strutil::{replace_char, replaced, str_eq};

verus! {

// ---------------------------------------------------------------------------
// Branch name to directory name
// ---------------------------------------------------------------------------

/// The directory name a branch maps to: every `/` becomes `-`, and nothing
/// else changes.
pub open spec fn dirname_of(b: Seq<char>) -> Seq<char> {
    replaced(b, '/', '-')
}

pub fn branch_to_dirname(branch: &str) -> (r: String)
    ensures
        r@ == dirname_of(branch@),
{
    replace_char(branch, '/', '-')
}

/// The conversion touches exactly the separators: the result has the same
/// length, a `-` wherever the branch had `/`, and every other character
/// unchanged.
pub proof fn lemma_dirname_pointwise(b: Seq<char>)
    ensures
        dirname_of(b).len() == b.len(),
        forall|i: int|
            0 <= i < b.len() ==> #[trigger] dirname_of(b)[i] == (if b[i] == '/' {
                '-'
            } else {
                b[i]
            }),
{
}

/// Converting twice is the same as converting once.
pub proof fn lemma_dirname_idempotent(b: Seq<char>)
    ensures
        dirname_of(dirname_of(b)) == dirname_of(b),
{
    lemma_dirname_pointwise(b);
    lemma_dirname_pointwise(dirname_of(b));
    assert(dirname_of(dirname_of(b)) =~= dirname_of(b));
}

// ---------------------------------------------------------------------------
// The worktree record
// ---------------------------------------------------------------------------

/// One working copy known to the registry.
#[derive(Debug, Clone)]
pub struct Worktree {
    /// Filesystem-safe directory name, derived from the working copy's path.
    pub dirname: String,
    /// The raw branch reference, or `HEAD` when detached.
    pub branch_name: String,
    /// Absolute path of the working copy root.
    pub path: String,
    /// Whether the invoking process stands inside this working copy.
    pub is_current: bool,
    /// Whether the parent repository is bare.
    pub is_bare: bool,
    /// Whether the working copy has no symbolic branch reference.
    pub is_detached: bool,
    /// The commit the working copy is at, when the listing carried one.
    pub head_commit: Option<String>,
    /// The remote-tracking reference, resolved only for the current working
    /// copy.
    pub upstream_branch: Option<String>,
    /// Seconds since the Unix epoch at which this record was built.
    pub last_modified: i64,
}

/// Relies on chrono's `Utc::now`: the wall-clock moment of the call, in
/// seconds since the Unix epoch. Nothing is assumed of the value.
#[verifier::external_body]
fn now_unix_seconds() -> i64 {
    chrono::Utc::now().timestamp()
}

/// The health of a working copy, derived rather than stored.
#[derive(Debug, Clone, Copy, PartialEq, Eq, Structural)]
pub enum WorktreeStatus {
    /// No uncommitted changes.
    Healthy,
    /// Uncommitted changes present.
    Modified,
    /// Checked out at a commit with no symbolic branch reference.
    Detached,
    /// Reserved; no state of this registry produces it.
    Conflict,
}

/// Detachment takes priority over modification.
pub open spec fn status_spec(is_detached: bool, has_uncommitted: bool) -> WorktreeStatus {
    if is_detached {
        WorktreeStatus::Detached
    } else if has_uncommitted {
        WorktreeStatus::Modified
    } else {
        WorktreeStatus::Healthy
    }
}

/// The display form of a record: the directory name, with the branch added
/// when the two differ.
pub open spec fn display_name_spec(dirname: Seq<char>, branch: Seq<char>) -> Seq<char> {
    if dirname == branch {
        dirname
    } else {
        dirname + " on "@ + branch
    }
}

impl Worktree {
    /// Builds a record; the construction timestamp is read from the clock.
    pub fn new(
        dirname: String,
        branch_name: String,
        path: String,
        is_current: bool,
        is_bare: bool,
        is_detached: bool,
        head_commit: Option<String>,
        upstream_branch: Option<String>,
    ) -> (r: Worktree)
        ensures
            r.dirname == dirname,
            r.branch_name == branch_name,
            r.path == path,
            r.is_current == is_current,
            r.is_bare == is_bare,
            r.is_detached == is_detached,
            r.head_commit == head_commit,
            r.upstream_branch == upstream_branch,
    {
        Worktree {
            dirname,
            branch_name,
            path,
            is_current,
            is_bare,
            is_detached,
            head_commit,
            upstream_branch,
            last_modified: now_unix_seconds(),
        }
    }

    /// The first record marked current, if any.
    pub fn find_current_worktree(worktrees: &Vec<Worktree>) -> (r: Option<&Worktree>)
        ensures
            match r {
                Some(w) => exists|i: int|
                    0 <= i < worktrees@.len() && #[trigger] worktrees@[i] == *w
                        && worktrees@[i].is_current && (forall|j: int|
                        0 <= j < i ==> !worktrees@[j].is_current),
                None => forall|j: int| 0 <= j < worktrees@.len() ==> !worktrees@[j].is_current,
            },
    {
        let mut i: usize = 0;
        while i < worktrees.len()
            invariant
                i <= worktrees@.len(),
                forall|j: int| 0 <= j < i ==> !worktrees@[j].is_current,
            decreases worktrees@.len() - i,
        {
            if worktrees[i].is_current {
                return Some(&worktrees[i]);
            }
            i = i + 1;
        }
        None
    }

    /// The name shown to the user: `dirname`, or `dirname on branch` when
    /// they differ.
    pub fn display_name(&self) -> (r: String)
        ensures
            r@ == display_name_spec(self.dirname@, self.branch_name@),
    {
        if str_eq(self.dirname.as_str(), self.branch_name.as_str()) {
            self.dirname.clone()
        } else {
            let mut out = self.dirname.clone();
            out.append(" on ");
            out.append(self.branch_name.as_str());
            out
        }
    }

    /// The derived status, given the caller's live answer to the
    /// uncommitted-changes probe for this working copy.
    pub fn get_status(&self, has_uncommitted: bool) -> (r: WorktreeStatus)
        ensures
            r == status_spec(self.is_detached, has_uncommitted),
    {
        if self.is_detached {
            WorktreeStatus::Detached
        } else if has_uncommitted {
            WorktreeStatus::Modified
        } else {
            WorktreeStatus::Healthy
        }
    }
}

} // verus!
