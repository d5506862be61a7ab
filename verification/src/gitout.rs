use vstd::prelude::*;

use crate::paths::{file_name, file_name_spec, paths_equal, paths_equal_spec};
use crate::strutil::{
    contains_seq, lines_spec, split_lines, str_contains, str_eq, trim_spec, trim_str, views_of,
};

verus! {

// ---------------------------------------------------------------------------
// Plain one-line answers
// ---------------------------------------------------------------------------

/// The repository root as the VCS printed it: the output line, trimmed.
pub fn repository_root_from_output(output: &str) -> (r: String)
    ensures
        r@ == trim_spec(output@),
{
    trim_str(output).to_owned()
}

/// A bare repository answers its probe with the literal `true`.
pub fn is_bare_from_output(output: &str) -> (r: bool)
    ensures
        r == (trim_spec(output@) == "true"@),
{
    str_eq(trim_str(output), "true")
}

/// The current branch as the VCS printed it; a detached working copy
/// prints the literal `HEAD`, which passes through unchanged.
pub fn current_branch_from_output(output: &str) -> (r: String)
    ensures
        r@ == trim_spec(output@),
{
    trim_str(output).to_owned()
}

/// What an upstream probe's outcome means: no answer, a blank answer, or
/// an answer still holding the probe's own marker all mean no upstream.
pub open spec fn upstream_spec(output: Option<Seq<char>>) -> Option<Seq<char>> {
    match output {
        Some(s) => {
            let t = trim_spec(s);
            if t.len() == 0 || contains_seq(t, "@{u}"@) {
                None
            } else {
                Some(t)
            }
        },
        None => None,
    }
}

pub fn upstream_from_output(output: Option<&str>) -> (r: Option<String>)
    ensures
        r.deep_view() == upstream_spec(match output {
            Some(s) => Some(s@),
            None => None,
        }),
{
    match output {
        Some(s) => {
            let t = trim_str(s);
            if t.unicode_len() == 0 || str_contains(t, "@{u}") {
                None
            } else {
                Some(t.to_owned())
            }
        },
        None => None,
    }
}

/// Whether a status listing reports any uncommitted change: anything
/// beyond whitespace.
pub fn has_changes_from_status(output: &str) -> (r: bool)
    ensures
        r == (trim_spec(output@).len() != 0),
{
    trim_str(output).unicode_len() != 0
}

/// One listing line per worktree.
pub fn worktree_count_from_list(output: &str) -> (r: usize)
    ensures
        r == lines_spec(output@).len(),
{
    split_lines(output).len()
}

// ---------------------------------------------------------------------------
// Branch listings
// ---------------------------------------------------------------------------

/// The lines of a branch listing, trimmed, blank ones dropped.
pub open spec fn branch_lines_spec(lines: Seq<Seq<char>>) -> Seq<Seq<char>>
    decreases lines.len(),
{
    if lines.len() == 0 {
        Seq::empty()
    } else {
        let prev = branch_lines_spec(lines.drop_last());
        if trim_spec(lines.last()).len() > 0 {
            prev.push(trim_spec(lines.last()))
        } else {
            prev
        }
    }
}

pub fn branches_from_output(output: &str) -> (v: Vec<String>)
    ensures
        views_of(v@) == branch_lines_spec(lines_spec(output@)),
{
    let lines = split_lines(output);
    let mut v: Vec<String> = Vec::new();
    let mut i: usize = 0;
    proof {
        assert(views_of(lines@).take(0) =~~= Seq::<Seq<char>>::empty());
        assert(views_of(v@) =~~= branch_lines_spec(views_of(lines@).take(0)));
    }
    while i < lines.len()
        invariant
            i <= lines@.len(),
            views_of(lines@) == lines_spec(output@),
            views_of(v@) == branch_lines_spec(views_of(lines@).take(i as int)),
        decreases lines@.len() - i,
    {
        let ghost prev = v@;
        let t = trim_str(lines[i].as_str());
        if t.unicode_len() > 0 {
            v.push(t.to_owned());
        }
        proof {
            let all = views_of(lines@);
            assert(all.take(i + 1).drop_last() =~~= all.take(i as int));
            assert(all.take(i + 1).last() == all[i as int]);
            if trim_spec(all[i as int]).len() > 0 {
                assert(views_of(v@) =~~= views_of(prev).push(trim_spec(all[i as int])));
            }
        }
        i = i + 1;
    }
    proof {
        assert(views_of(lines@).take(lines@.len() as int) =~~= views_of(lines@));
    }
    v
}

// ---------------------------------------------------------------------------
// Choosing the default branch and naming the current working copy
// ---------------------------------------------------------------------------

/// The fallback order when no symbolic ref answers: the first of the
/// common default branch names that exists, or `main`.
pub open spec fn fallback_branch_spec(has_main: bool, has_master: bool, has_develop: bool) -> Seq<
    char,
> {
    if has_main {
        "main"@
    } else if has_master {
        "master"@
    } else if has_develop {
        "develop"@
    } else {
        "main"@
    }
}

/// The default branch: the trimmed symbolic-ref answer when there is a
/// non-blank one, else the fallback order.
pub open spec fn default_branch_spec(
    symbolic_ref: Option<Seq<char>>,
    has_main: bool,
    has_master: bool,
    has_develop: bool,
) -> Seq<char> {
    match symbolic_ref {
        Some(s) => {
            if trim_spec(s).len() > 0 {
                trim_spec(s)
            } else {
                fallback_branch_spec(has_main, has_master, has_develop)
            }
        },
        None => fallback_branch_spec(has_main, has_master, has_develop),
    }
}

/// Decides the repository's default branch from the symbolic-ref answer
/// and the caller's three branch-existence probes.
pub fn choose_default_branch(
    symbolic_ref: Option<&str>,
    has_main: bool,
    has_master: bool,
    has_develop: bool,
) -> (r: String)
    ensures
        r@ == default_branch_spec(
            match symbolic_ref {
                Some(s) => Some(s@),
                None => None,
            },
            has_main,
            has_master,
            has_develop,
        ),
{
    if let Some(s) = symbolic_ref {
        let t = trim_str(s);
        if t.unicode_len() > 0 {
            return t.to_owned();
        }
    }
    if has_main {
        String::from_str("main")
    } else if has_master {
        String::from_str("master")
    } else if has_develop {
        String::from_str("develop")
    } else {
        String::from_str("main")
    }
}

/// The name of the working copy the caller stands in: `main` at the
/// repository root, else the final component of the toplevel the VCS
/// reports, with `main` as the answer of last resort.
pub open spec fn current_worktree_spec(
    root: Seq<char>,
    current: Seq<char>,
    toplevel: Option<Seq<char>>,
) -> Seq<char> {
    if paths_equal_spec(current, root) {
        "main"@
    } else {
        match toplevel {
            Some(t) => {
                let w = trim_spec(t);
                if !paths_equal_spec(w, root) {
                    match file_name_spec(w) {
                        Some(n) => n,
                        None => "main"@,
                    }
                } else {
                    "main"@
                }
            },
            None => "main"@,
        }
    }
}

pub fn current_worktree_name(root_path: &str, current_path: &str, toplevel: Option<&str>) -> (r:
    String)
    ensures
        r@ == current_worktree_spec(
            root_path@,
            current_path@,
            match toplevel {
                Some(t) => Some(t@),
                None => None,
            },
        ),
{
    if paths_equal(current_path, root_path) {
        return String::from_str("main");
    }
    if let Some(t) = toplevel {
        let w = trim_str(t);
        if !paths_equal(w, root_path) {
            if let Some(n) = file_name(w) {
                return n;
            }
        }
    }
    String::from_str("main")
}

// ---------------------------------------------------------------------------
// Detailed status listings
// ---------------------------------------------------------------------------

/// Files named by a worktree's status listing, sorted into the staging
/// classes the presentation layer shows.
#[derive(Debug, Clone)]
pub struct WorktreeStatusInfo {
    /// Files with work-tree modifications.
    pub modified: Vec<String>,
    /// Files with staged changes.
    pub staged: Vec<String>,
    /// Untracked files.
    pub untracked: Vec<String>,
}

/// The ghost image of a status listing.
pub ghost struct StatusImage {
    pub modified: Seq<Seq<char>>,
    pub staged: Seq<Seq<char>>,
    pub untracked: Seq<Seq<char>>,
}

/// One status line applied to the running image: the first column sorts
/// into staged, the second into modified, `??` into untracked; lines too
/// short to carry the two columns and their separator are skipped.
pub open spec fn status_step(st: StatusImage, line: Seq<char>) -> StatusImage {
    if line.len() < 3 {
        st
    } else {
        let c0 = line[0];
        let c1 = line[1];
        let file = line.skip(3);
        StatusImage {
            staged: if c0 == 'M' || c0 == 'A' || c0 == 'D' || c0 == 'R' {
                st.staged.push(file)
            } else {
                st.staged
            },
            modified: if c1 == 'M' || c1 == 'D' {
                st.modified.push(file)
            } else {
                st.modified
            },
            untracked: if c0 == '?' && c1 == '?' {
                st.untracked.push(file)
            } else {
                st.untracked
            },
        }
    }
}

pub open spec fn status_fold(lines: Seq<Seq<char>>) -> StatusImage
    decreases lines.len(),
{
    if lines.len() == 0 {
        StatusImage { modified: Seq::empty(), staged: Seq::empty(), untracked: Seq::empty() }
    } else {
        status_step(status_fold(lines.drop_last()), lines.last())
    }
}

/// Reads a status listing into the three file classes.
pub fn parse_worktree_status(output: &str) -> (r: WorktreeStatusInfo)
    ensures
        views_of(r.modified@) == status_fold(lines_spec(output@)).modified,
        views_of(r.staged@) == status_fold(lines_spec(output@)).staged,
        views_of(r.untracked@) == status_fold(lines_spec(output@)).untracked,
{
    let lines = split_lines(output);
    let mut modified: Vec<String> = Vec::new();
    let mut staged: Vec<String> = Vec::new();
    let mut untracked: Vec<String> = Vec::new();
    let mut i: usize = 0;
    proof {
        assert(views_of(lines@).take(0) =~~= Seq::<Seq<char>>::empty());
        assert(views_of(modified@) =~~= status_fold(views_of(lines@).take(0)).modified);
    }
    while i < lines.len()
        invariant
            i <= lines@.len(),
            views_of(lines@) == lines_spec(output@),
            views_of(modified@) == status_fold(views_of(lines@).take(i as int)).modified,
            views_of(staged@) == status_fold(views_of(lines@).take(i as int)).staged,
            views_of(untracked@) == status_fold(views_of(lines@).take(i as int)).untracked,
        decreases lines@.len() - i,
    {
        let ghost pm = modified@;
        let ghost ps = staged@;
        let ghost pu = untracked@;
        let line = lines[i].as_str();
        let n = line.unicode_len();
        if n >= 3 {
            let c0 = line.get_char(0);
            let c1 = line.get_char(1);
            if c0 == 'M' || c0 == 'A' || c0 == 'D' || c0 == 'R' {
                staged.push(line.substring_char(3, n).to_owned());
            }
            if c1 == 'M' || c1 == 'D' {
                modified.push(line.substring_char(3, n).to_owned());
            }
            if c0 == '?' && c1 == '?' {
                untracked.push(line.substring_char(3, n).to_owned());
            }
        }
        proof {
            let all = views_of(lines@);
            assert(all.take(i + 1).drop_last() =~~= all.take(i as int));
            assert(all.take(i + 1).last() == all[i as int]);
            let lv = all[i as int];
            if lv.len() >= 3 {
                if lv[0] == 'M' || lv[0] == 'A' || lv[0] == 'D' || lv[0] == 'R' {
                    assert(views_of(staged@) =~~= views_of(ps).push(lv.skip(3)));
                }
                if lv[1] == 'M' || lv[1] == 'D' {
                    assert(views_of(modified@) =~~= views_of(pm).push(lv.skip(3)));
                }
                if lv[0] == '?' && lv[1] == '?' {
                    assert(views_of(untracked@) =~~= views_of(pu).push(lv.skip(3)));
                }
            }
        }
        i = i + 1;
    }
    proof {
        assert(views_of(lines@).take(lines@.len() as int) =~~= views_of(lines@));
    }
    WorktreeStatusInfo { modified, staged, untracked }
}

} // verus!
