use vstd::prelude::*;

use crate::errors::WorktreeError;
use crate::parser::{matches_entry, parse_porcelain, parse_worktrees};
use crate::paths::{file_name, file_name_spec, join_path, join_path_spec, parent_path, parent_spec};
use crate::strutil::str_eq;
use crate::worktree::{branch_to_dirname, dirname_of, Worktree};

verus! {

// ---------------------------------------------------------------------------
// Finding records by name
// ---------------------------------------------------------------------------

/// Index of the first occurrence of `x` in `s`, or `s.len()` if `x` does
/// not occur.
pub open spec fn find_seq(s: Seq<Seq<char>>, x: Seq<char>) -> nat
    decreases s.len(),
{
    if s.len() == 0 {
        0
    } else if s[0] == x {
        0
    } else {
        1 + find_seq(s.drop_first(), x)
    }
}

pub proof fn lemma_find_seq(s: Seq<Seq<char>>, x: Seq<char>)
    ensures
        find_seq(s, x) <= s.len(),
        find_seq(s, x) < s.len() ==> s[find_seq(s, x) as int] == x,
        forall|j: int| 0 <= j < find_seq(s, x) ==> s[j] != x,
    decreases s.len(),
{
    if s.len() == 0 {
    } else if s[0] == x {
    } else {
        lemma_find_seq(s.drop_first(), x);
        assert forall|j: int| 0 <= j < find_seq(s, x) implies s[j] != x by {
            if j > 0 {
                assert(s.drop_first()[j - 1] != x);
            }
        }
    }
}

pub proof fn lemma_find_seq_is(s: Seq<Seq<char>>, x: Seq<char>, i: int)
    requires
        0 <= i < s.len(),
        s[i] == x,
        forall|j: int| 0 <= j < i ==> s[j] != x,
    ensures
        find_seq(s, x) == i,
    decreases s.len(),
{
    if s[0] == x {
        assert(i == 0);
    } else {
        assert(i > 0);
        lemma_find_seq_is(s.drop_first(), x, i - 1);
    }
}

pub proof fn lemma_find_seq_none(s: Seq<Seq<char>>, x: Seq<char>)
    requires
        forall|j: int| 0 <= j < s.len() ==> s[j] != x,
    ensures
        find_seq(s, x) == s.len(),
    decreases s.len(),
{
    if s.len() > 0 {
        assert forall|j: int| 0 <= j < s.drop_first().len() implies s.drop_first()[j] != x by {
            assert(s[j + 1] != x);
        }
        lemma_find_seq_none(s.drop_first(), x);
    }
}

/// The directory names of a record sequence, in order.
pub open spec fn dirnames(s: Seq<Worktree>) -> Seq<Seq<char>> {
    s.map_values(|w: Worktree| w.dirname@)
}

/// The branch names of a record sequence, in order.
pub open spec fn branch_names(s: Seq<Worktree>) -> Seq<Seq<char>> {
    s.map_values(|w: Worktree| w.branch_name@)
}

/// A registry snapshot is well formed when no two records share a
/// directory name.
pub open spec fn dirnames_unique(s: Seq<Worktree>) -> bool {
    forall|i: int, j: int|
        0 <= i < j < s.len() ==> #[trigger] s[i].dirname@ != #[trigger] s[j].dirname@
}

// ---------------------------------------------------------------------------
// The registry
// ---------------------------------------------------------------------------

/// A conflict found before a create call is issued: the directory name the
/// new branch would take, and the branch already holding it.
pub struct ConflictInfo {
    pub dirname: String,
    pub existing_branch: String,
}

/// What a create request will do, decided before anything external runs.
pub struct CreatePlan {
    /// The directory name the new working copy will take.
    pub dirname: String,
    /// The path at which it will be created.
    pub path: String,
}

/// One snapshot of the known working copies, rebuilt from a fresh listing
/// on every query.
pub struct Registry {
    records: Vec<Worktree>,
}

impl View for Registry {
    type V = Seq<Worktree>;

    closed spec fn view(&self) -> Seq<Worktree> {
        self.records@
    }
}

impl Registry {
    /// A registry over records the caller already built.
    pub fn new(records: Vec<Worktree>) -> (r: Registry)
        ensures
            r@ == records@,
    {
        Registry { records }
    }

    /// A registry read from one porcelain listing; see `parse_worktrees`
    /// for what the arguments stand for.
    pub fn from_listing(
        text: &str,
        cwd: &str,
        is_bare: bool,
        upstream_of_current: Option<String>,
    ) -> (r: Registry)
        ensures
            r@.len() == parse_porcelain(text@).len(),
            forall|i: int|
                0 <= i < r@.len() ==> matches_entry(
                    #[trigger] r@[i],
                    parse_porcelain(text@)[i],
                    cwd@,
                    is_bare,
                    upstream_of_current.deep_view(),
                ),
    {
        Registry { records: parse_worktrees(text, cwd, is_bare, upstream_of_current) }
    }

    /// All records of the snapshot.
    pub fn list(&self) -> (r: &Vec<Worktree>)
        ensures
            r@ == self@,
    {
        &self.records
    }

    /// The first record whose directory name is `name`.
    pub fn find_by_directory_name(&self, name: &str) -> (r: Option<&Worktree>)
        ensures
            ({
                let fi = find_seq(dirnames(self@), name@);
                match r {
                    Some(w) => fi < self@.len() && *w == self@[fi as int],
                    None => fi == self@.len(),
                }
            }),
    {
        let mut i: usize = 0;
        while i < self.records.len()
            invariant
                i <= self@.len(),
                forall|j: int| 0 <= j < i ==> #[trigger] dirnames(self@)[j] != name@,
            decreases self@.len() - i,
        {
            if str_eq(self.records[i].dirname.as_str(), name) {
                proof {
                    lemma_find_seq_is(dirnames(self@), name@, i as int);
                }
                return Some(&self.records[i]);
            }
            i = i + 1;
        }
        proof {
            lemma_find_seq_none(dirnames(self@), name@);
        }
        None
    }

    /// The first record whose branch name is `name`.
    pub fn find_by_branch(&self, name: &str) -> (r: Option<&Worktree>)
        ensures
            ({
                let fi = find_seq(branch_names(self@), name@);
                match r {
                    Some(w) => fi < self@.len() && *w == self@[fi as int],
                    None => fi == self@.len(),
                }
            }),
    {
        let mut i: usize = 0;
        while i < self.records.len()
            invariant
                i <= self@.len(),
                forall|j: int| 0 <= j < i ==> #[trigger] branch_names(self@)[j] != name@,
            decreases self@.len() - i,
        {
            if str_eq(self.records[i].branch_name.as_str(), name) {
                proof {
                    lemma_find_seq_is(branch_names(self@), name@, i as int);
                }
                return Some(&self.records[i]);
            }
            i = i + 1;
        }
        proof {
            lemma_find_seq_none(branch_names(self@), name@);
        }
        None
    }

    /// Scans for an existing record already holding `candidate` as its
    /// directory name. `Some` carries the candidate and the branch of the
    /// first record holding it; `None` says the name is free.
    pub fn check_create_conflict(&self, candidate: &str) -> (r: Option<ConflictInfo>)
        ensures
            ({
                let fi = find_seq(dirnames(self@), candidate@);
                match r {
                    Some(c) => fi < self@.len() && c.dirname@ == candidate@ && c.existing_branch@
                        == self@[fi as int].branch_name@,
                    None => fi == self@.len(),
                }
            }),
    {
        match self.find_by_directory_name(candidate) {
            Some(w) => Some(
                ConflictInfo {
                    dirname: candidate.to_owned(),
                    existing_branch: w.branch_name.clone(),
                },
            ),
            None => None,
        }
    }
}

} // verus!

verus! {

// ---------------------------------------------------------------------------
// Deletion safety
// ---------------------------------------------------------------------------

/// The verdict on a delete request, decided before anything external runs.
pub ghost enum DeleteVerdict {
    /// No record carries the requested directory name.
    MissingName,
    /// The record is the caller's own working copy; deletion is refused.
    RefusedCurrent,
    /// The record at this index may be handed to the external remove call.
    Removable(int),
}

/// What a delete request may do. The `force` flag plays no part: it can
/// override the uncommitted-changes prompt downstream, never this verdict.
pub open spec fn check_delete_spec(s: Seq<Worktree>, name: Seq<char>, force: bool) -> DeleteVerdict {
    let fi = find_seq(dirnames(s), name);
    if fi >= s.len() {
        DeleteVerdict::MissingName
    } else if s[fi as int].is_current {
        DeleteVerdict::RefusedCurrent
    } else {
        DeleteVerdict::Removable(fi as int)
    }
}

/// Deleting the working copy the caller stands in is refused whatever the
/// `force` flag says; the flag changes the verdict in no case at all.
pub proof fn lemma_delete_current_always_refused(s: Seq<Worktree>, name: Seq<char>, force: bool)
    requires
        ({
            let fi = find_seq(dirnames(s), name);
            fi < s.len() && s[fi as int].is_current
        }),
    ensures
        check_delete_spec(s, name, force) == DeleteVerdict::RefusedCurrent,
        check_delete_spec(s, name, force) == check_delete_spec(s, name, !force),
{
}

impl Registry {
    /// Decides a delete request: the index of the record to remove, or the
    /// error that refuses the request. The current working copy is refused
    /// unconditionally, `force` or no `force`.
    pub fn check_delete(&self, name: &str, force: bool) -> (r: Result<usize, WorktreeError>)
        ensures
            match check_delete_spec(self@, name@, force) {
                DeleteVerdict::MissingName => r matches Err(WorktreeError::NotFound(m)) && m@
                    == name@,
                DeleteVerdict::RefusedCurrent => r matches Err(WorktreeError::CannotDeleteCurrent),
                DeleteVerdict::Removable(i) => r matches Ok(u) && u as int == i,
            },
    {
        proof {
            lemma_find_seq(dirnames(self@), name@);
        }
        let found = self.find_index_by_dirname(name);
        match found {
            Some(i) => {
                if self.records[i].is_current {
                    Err(WorktreeError::CannotDeleteCurrent)
                } else {
                    Ok(i)
                }
            },
            None => Err(WorktreeError::NotFound(name.to_owned())),
        }
    }

    /// The position of the first record whose directory name is `name`.
    fn find_index_by_dirname(&self, name: &str) -> (r: Option<usize>)
        ensures
            ({
                let fi = find_seq(dirnames(self@), name@);
                match r {
                    Some(i) => i as nat == fi && fi < self@.len(),
                    None => fi == self@.len(),
                }
            }),
    {
        let mut i: usize = 0;
        while i < self.records.len()
            invariant
                i <= self@.len(),
                forall|j: int| 0 <= j < i ==> #[trigger] dirnames(self@)[j] != name@,
            decreases self@.len() - i,
        {
            if str_eq(self.records[i].dirname.as_str(), name) {
                proof {
                    lemma_find_seq_is(dirnames(self@), name@, i as int);
                }
                return Some(i);
            }
            i = i + 1;
        }
        proof {
            lemma_find_seq_none(dirnames(self@), name@);
        }
        None
    }
}

// ---------------------------------------------------------------------------
// Planning a create request
// ---------------------------------------------------------------------------

/// The path a worktree takes when the caller names none: a
/// `<repository directory>.worktrees` directory beside the repository,
/// with the new directory name inside it.
pub open spec fn default_plan_path(repo_root: Seq<char>, dirname: Seq<char>) -> Seq<char> {
    let base = match file_name_spec(repo_root) {
        Some(n) => n,
        None => "repo"@,
    };
    join_path_spec(
        join_path_spec(parent_spec(repo_root)->Some_0, base + ".worktrees"@),
        dirname,
    )
}

impl Registry {
    /// Decides a create request before anything external runs: converts
    /// the branch name, settles the target path, and refuses the request
    /// when the converted directory name is already taken. The conflict
    /// carries the candidate name and the branch already holding it.
    pub fn plan_create(&self, branch: &str, custom_path: Option<&str>, repo_root: &str) -> (r:
        Result<CreatePlan, WorktreeError>)
        ensures
            ({
                let dn = dirname_of(branch@);
                let fi = find_seq(dirnames(self@), dn);
                if custom_path is None && parent_spec(repo_root@) is None {
                    r matches Err(WorktreeError::InvalidPath(_))
                } else if fi < self@.len() {
                    r matches Err(WorktreeError::DirNameConflict { dirname, existing_branch })
                        && dirname@ == dn && existing_branch@ == self@[fi as int].branch_name@
                } else {
                    r matches Ok(plan) && plan.dirname@ == dn && plan.path@ == (match custom_path {
                        Some(c) => c@,
                        None => default_plan_path(repo_root@, dn),
                    })
                }
            }),
    {
        let dirname = branch_to_dirname(branch);
        let path: String = match custom_path {
            Some(c) => c.to_owned(),
            None => {
                let parent = match parent_path(repo_root) {
                    Some(p) => p,
                    None => {
                        return Err(
                            WorktreeError::InvalidPath(
                                String::from_str("Cannot determine parent directory"),
                            ),
                        );
                    },
                };
                let mut base = match file_name(repo_root) {
                    Some(n) => n,
                    None => String::from_str("repo"),
                };
                base.append(".worktrees");
                join_path(join_path(parent.as_str(), base.as_str()).as_str(), dirname.as_str())
            },
        };
        match self.check_create_conflict(dirname.as_str()) {
            Some(conflict) => Err(
                WorktreeError::DirNameConflict {
                    dirname: conflict.dirname,
                    existing_branch: conflict.existing_branch,
                },
            ),
            None => Ok(CreatePlan { dirname, path }),
        }
    }
}

} // verus!

verus! {

// ---------------------------------------------------------------------------
// Choosing a switch target and prune targets
// ---------------------------------------------------------------------------

impl Registry {
    /// The record a switch request lands on: the named one, or — with no
    /// name given — the first record that is not the caller's own.
    pub fn select_switch_target(&self, name: Option<&str>) -> (r: Result<&Worktree, WorktreeError>)
        ensures
            match name {
                Some(nm) => ({
                    let fi = find_seq(dirnames(self@), nm@);
                    match r {
                        Ok(w) => fi < self@.len() && *w == self@[fi as int],
                        Err(e) => fi == self@.len() && (e matches WorktreeError::NotFound(m) && m@
                            == nm@),
                    }
                }),
                None => match r {
                    Ok(w) => exists|i: int|
                        0 <= i < self@.len() && #[trigger] self@[i] == *w && !self@[i].is_current
                            && (forall|j: int| 0 <= j < i ==> self@[j].is_current),
                    Err(e) => (forall|j: int| 0 <= j < self@.len() ==> self@[j].is_current) && (
                    e matches WorktreeError::NotFound(m) && m@ == "No other worktrees available"@),
                },
            },
    {
        match name {
            Some(nm) => {
                match self.find_by_directory_name(nm) {
                    Some(w) => Ok(w),
                    None => Err(WorktreeError::NotFound(nm.to_owned())),
                }
            },
            None => {
                let mut i: usize = 0;
                while i < self.records.len()
                    invariant
                        name is None,
                        i <= self@.len(),
                        forall|j: int| 0 <= j < i ==> self@[j].is_current,
                    decreases self@.len() - i,
                {
                    if !self.records[i].is_current {
                        return Ok(&self.records[i]);
                    }
                    i = i + 1;
                }
                Err(
                    WorktreeError::NotFound(String::from_str("No other worktrees available")),
                )
            },
        }
    }
}

/// The indices of the flags that are off, in increasing order.
pub open spec fn missing_indices(ex: Seq<bool>) -> Seq<int>
    decreases ex.len(),
{
    if ex.len() == 0 {
        Seq::empty()
    } else if !ex.last() {
        missing_indices(ex.drop_last()).push(ex.len() - 1)
    } else {
        missing_indices(ex.drop_last())
    }
}

impl Registry {
    /// The records whose directories are gone, by position: one existence
    /// flag per record, probed by the caller.
    pub fn select_prune_targets(&self, exists_flags: &Vec<bool>) -> (r: Vec<usize>)
        requires
            exists_flags@.len() == self@.len(),
        ensures
            r@.map_values(|u: usize| u as int) == missing_indices(exists_flags@),
    {
        let mut r: Vec<usize> = Vec::new();
        let mut i: usize = 0;
        proof {
            assert(exists_flags@.take(0) =~= Seq::<bool>::empty());
            assert(r@.map_values(|u: usize| u as int) =~= missing_indices(exists_flags@.take(0)));
        }
        while i < exists_flags.len()
            invariant
                i <= exists_flags@.len(),
                r@.map_values(|u: usize| u as int) == missing_indices(exists_flags@.take(i as int)),
            decreases exists_flags@.len() - i,
        {
            let ghost prev = r@;
            if !exists_flags[i] {
                r.push(i);
            }
            proof {
                assert(exists_flags@.take(i + 1).drop_last() =~= exists_flags@.take(i as int));
                assert(exists_flags@.take(i + 1).last() == exists_flags@[i as int]);
                if !exists_flags@[i as int] {
                    assert(r@.map_values(|u: usize| u as int) =~= prev.map_values(
                        |u: usize| u as int,
                    ).push(i as int));
                }
            }
            i = i + 1;
        }
        proof {
            assert(exists_flags@.take(exists_flags@.len() as int) =~= exists_flags@);
        }
        r
    }
}

} // verus!

verus! {

/// A snapshot with unique directory names stays unique when a record
/// whose name the conflict check found free is added.
pub proof fn lemma_create_preserves_uniqueness(s: Seq<Worktree>, w: Worktree)
    requires
        dirnames_unique(s),
        find_seq(dirnames(s), w.dirname@) == s.len(),
    ensures
        dirnames_unique(s.push(w)),
{
    lemma_find_seq(dirnames(s), w.dirname@);
    assert forall|i: int, j: int|
        0 <= i < j < s.push(w).len() implies #[trigger] s.push(w)[i].dirname@
        != #[trigger] s.push(w)[j].dirname@ by {
        if j == s.len() {
            assert(dirnames(s)[i] != w.dirname@);
        }
    }
}

} // verus!
