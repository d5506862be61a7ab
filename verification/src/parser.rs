use vstd::prelude::*;

use crate::paths::{file_name, file_name_spec, path_starts_with, path_starts_with_spec};
use crate::strutil::{
    find_char, find_first, has_prefix, lemma_find_first_is, lemma_find_first_none, lines_spec,
    split_lines, str_eq, strip_prefix_str, views_of,
};
use crate::worktree::Worktree;

verus! {

// ---------------------------------------------------------------------------
// The porcelain listing, as a sequence of raw entries
// ---------------------------------------------------------------------------

/// The ghost image of one record read from the listing.
pub ghost struct RawEntry {
    pub path: Seq<char>,
    pub branch: Seq<char>,
    pub head_commit: Option<Seq<char>>,
    pub is_detached: bool,
}

/// A record-in-progress while the listing is read.
pub struct WorktreeData {
    /// The working copy root named by the opening `worktree` line.
    pub path: String,
    /// The display branch name; `HEAD` until a `branch` line arrives.
    pub branch: String,
    /// The commit named by a `HEAD` line, if one arrived.
    pub head_commit: Option<String>,
    /// Whether a `detached` line arrived after the last `branch` line.
    pub is_detached: bool,
}

impl View for WorktreeData {
    type V = RawEntry;

    open spec fn view(&self) -> RawEntry {
        RawEntry {
            path: self.path@,
            branch: self.branch@,
            head_commit: self.head_commit.deep_view(),
            is_detached: self.is_detached,
        }
    }
}

pub open spec fn entries_of(v: Seq<WorktreeData>) -> Seq<RawEntry> {
    v.map_values(|d: WorktreeData| d@)
}

pub open spec fn opt_entry(c: Option<WorktreeData>) -> Option<RawEntry> {
    match c {
        Some(d) => Some(d@),
        None => None,
    }
}

/// The state a `worktree <path>` line opens.
pub open spec fn fresh_entry(path: Seq<char>) -> RawEntry {
    RawEntry { path, branch: "HEAD"@, head_commit: None, is_detached: false }
}

/// A ref with a `refs/heads/` or `refs/remotes/` prefix (in that preference
/// order) reduced to its display name.
pub open spec fn strip_ref_prefix(v: Seq<char>) -> Seq<char> {
    if has_prefix(v, "refs/heads/"@) {
        v.skip("refs/heads/"@.len() as int)
    } else if has_prefix(v, "refs/remotes/"@) {
        v.skip("refs/remotes/"@.len() as int)
    } else {
        v
    }
}

/// A closing state emits its record-in-progress, if one is open.
pub open spec fn emit(acc: Seq<RawEntry>, cur: Option<RawEntry>) -> Seq<RawEntry> {
    match cur {
        Some(e) => acc.push(e),
        None => acc,
    }
}

/// One line of the listing applied to the parser state. A blank line closes
/// and emits the open record; `worktree` opens a fresh one; `HEAD`,
/// `branch` and `detached` fill the open record; anything else is ignored,
/// as are keys arriving before any `worktree` line.
pub open spec fn apply_line(acc: Seq<RawEntry>, cur: Option<RawEntry>, line: Seq<char>) -> (
    Seq<RawEntry>,
    Option<RawEntry>,
) {
    if line.len() == 0 {
        (emit(acc, cur), None)
    } else {
        let f = find_first(line, ' ');
        if f >= line.len() {
            if line == "detached"@ {
                match cur {
                    Some(e) => (
                        acc,
                        Some(
                            RawEntry {
                                path: e.path,
                                branch: e.branch,
                                head_commit: e.head_commit,
                                is_detached: true,
                            },
                        ),
                    ),
                    None => (acc, None),
                }
            } else {
                (acc, cur)
            }
        } else {
            let k = line.take(f as int);
            let v = line.skip(f + 1 as int);
            if k == "worktree"@ {
                (acc, Some(fresh_entry(v)))
            } else if k == "HEAD"@ {
                match cur {
                    Some(e) => (
                        acc,
                        Some(
                            RawEntry {
                                path: e.path,
                                branch: e.branch,
                                head_commit: Some(v),
                                is_detached: e.is_detached,
                            },
                        ),
                    ),
                    None => (acc, None),
                }
            } else if k == "branch"@ {
                match cur {
                    Some(e) => (
                        acc,
                        Some(
                            RawEntry {
                                path: e.path,
                                branch: strip_ref_prefix(v),
                                head_commit: e.head_commit,
                                is_detached: false,
                            },
                        ),
                    ),
                    None => (acc, None),
                }
            } else if k == "detached"@ {
                match cur {
                    Some(e) => (
                        acc,
                        Some(
                            RawEntry {
                                path: e.path,
                                branch: e.branch,
                                head_commit: e.head_commit,
                                is_detached: true,
                            },
                        ),
                    ),
                    None => (acc, None),
                }
            } else {
                (acc, cur)
            }
        }
    }
}

/// The parser state after a sequence of lines.
pub open spec fn parse_lines_rec(lines: Seq<Seq<char>>) -> (Seq<RawEntry>, Option<RawEntry>)
    decreases lines.len(),
{
    if lines.len() == 0 {
        (Seq::empty(), None)
    } else {
        let prev = parse_lines_rec(lines.drop_last());
        apply_line(prev.0, prev.1, lines.last())
    }
}

/// All records of a porcelain listing: its lines folded through the parser,
/// with the end of input closing any open record.
pub open spec fn parse_porcelain(text: Seq<char>) -> Seq<RawEntry> {
    let st = parse_lines_rec(lines_spec(text));
    emit(st.0, st.1)
}

// ---------------------------------------------------------------------------
// Reading the listing
// ---------------------------------------------------------------------------

impl WorktreeData {
    /// The state a `worktree <path>` line opens.
    pub fn new(path: String) -> (r: WorktreeData)
        ensures
            r@ == fresh_entry(path@),
    {
        WorktreeData { path, branch: String::from_str("HEAD"), head_commit: None, is_detached: false }
    }
}

/// Reads the machine-readable worktree listing into raw records. Malformed
/// groups are skipped, never reported: a group without a `worktree` line
/// yields nothing, and unrecognized keys are ignored.
pub fn parse_worktree_data(text: &str) -> (v: Vec<WorktreeData>)
    ensures
        entries_of(v@) == parse_porcelain(text@),
{
    let lines = split_lines(text);
    let mut acc: Vec<WorktreeData> = Vec::new();
    let mut cur: Option<WorktreeData> = None;
    let mut i: usize = 0;
    proof {
        assert(views_of(lines@).take(0) =~~= Seq::<Seq<char>>::empty());
        assert(entries_of(acc@) =~~= parse_lines_rec(views_of(lines@).take(0)).0);
    }
    while i < lines.len()
        invariant
            i <= lines@.len(),
            views_of(lines@) == lines_spec(text@),
            (entries_of(acc@), opt_entry(cur)) == parse_lines_rec(views_of(lines@).take(i as int)),
        decreases lines@.len() - i,
    {
        let ghost prev_acc = acc@;
        let ghost prev_cur = opt_entry(cur);
        let ghost lv = views_of(lines@)[i as int];
        let line = lines[i].as_str();
        let n = line.unicode_len();
        if n == 0 {
            let prev = cur;
            cur = None;
            if let Some(d) = prev {
                acc.push(d);
                proof {
                    assert(entries_of(acc@) =~~= entries_of(prev_acc).push(prev_cur->Some_0));
                }
            }
        } else {
            let sp = find_char(line, ' ');
            match sp {
                None => {
                    if str_eq(line, "detached") {
                        let prev = cur;
                        match prev {
                            Some(d) => {
                                cur = Some(
                                    WorktreeData {
                                        path: d.path,
                                        branch: d.branch,
                                        head_commit: d.head_commit,
                                        is_detached: true,
                                    },
                                );
                            },
                            None => {
                                cur = None;
                            },
                        }
                    }
                },
                Some(f) => {
                    let key = line.substring_char(0, f);
                    let val = line.substring_char(f + 1, n);
                    proof {
                        assert(key@ == lv.take(find_first(lv, ' ') as int));
                        assert(val@ == lv.skip(find_first(lv, ' ') + 1 as int));
                    }
                    if str_eq(key, "worktree") {
                        cur = Some(WorktreeData::new(val.to_owned()));
                    } else if str_eq(key, "HEAD") {
                        let prev = cur;
                        match prev {
                            Some(d) => {
                                cur = Some(
                                    WorktreeData {
                                        path: d.path,
                                        branch: d.branch,
                                        head_commit: Some(val.to_owned()),
                                        is_detached: d.is_detached,
                                    },
                                );
                            },
                            None => {
                                cur = None;
                            },
                        }
                    } else if str_eq(key, "branch") {
                        let display = strip_display_branch(val);
                        let prev = cur;
                        match prev {
                            Some(d) => {
                                cur = Some(
                                    WorktreeData {
                                        path: d.path,
                                        branch: display,
                                        head_commit: d.head_commit,
                                        is_detached: false,
                                    },
                                );
                            },
                            None => {
                                cur = None;
                            },
                        }
                    } else if str_eq(key, "detached") {
                        let prev = cur;
                        match prev {
                            Some(d) => {
                                cur = Some(
                                    WorktreeData {
                                        path: d.path,
                                        branch: d.branch,
                                        head_commit: d.head_commit,
                                        is_detached: true,
                                    },
                                );
                            },
                            None => {
                                cur = None;
                            },
                        }
                    }
                },
            }
        }
        proof {
            let all = views_of(lines@);
            assert(all.take(i + 1).drop_last() =~~= all.take(i as int));
            assert(all.take(i + 1).last() == all[i as int]);
            assert((entries_of(acc@), opt_entry(cur)) == apply_line(
                entries_of(prev_acc),
                prev_cur,
                lv,
            ));
        }
        i = i + 1;
    }
    proof {
        assert(views_of(lines@).take(lines@.len() as int) =~~= views_of(lines@));
    }
    let last = cur;
    if let Some(d) = last {
        let ghost prev_acc = acc@;
        acc.push(d);
        proof {
            assert(entries_of(acc@) =~~= entries_of(prev_acc).push(d@));
        }
    }
    acc
}

/// The display branch name of a ref from a `branch` line.
pub fn strip_display_branch(val: &str) -> (r: String)
    ensures
        r@ == strip_ref_prefix(val@),
{
    if let Some(rest) = strip_prefix_str(val, "refs/heads/") {
        rest.to_owned()
    } else if let Some(rest) = strip_prefix_str(val, "refs/remotes/") {
        rest.to_owned()
    } else {
        val.to_owned()
    }
}

} // verus!

verus! {

// ---------------------------------------------------------------------------
// From raw entries to records
// ---------------------------------------------------------------------------

/// The directory name derived from a working copy path: its final path
/// component, or `unknown` for a path without one.
pub open spec fn derive_name_spec(path: Seq<char>) -> Seq<char> {
    match file_name_spec(path) {
        Some(n) => n,
        None => "unknown"@,
    }
}

impl WorktreeData {
    /// The directory name of this working copy, read from its path.
    pub fn derive_worktree_name(&self) -> (r: String)
        ensures
            r@ == derive_name_spec(self.path@),
    {
        match file_name(self.path.as_str()) {
            Some(n) => n,
            None => String::from_str("unknown"),
        }
    }

    /// The finished record: ambient facts — the caller's working directory,
    /// the bare flag, and the upstream resolved for the current working
    /// copy — arrive as arguments rather than being read from the world.
    pub fn to_worktree(&self, cwd: &str, is_bare: bool, upstream_if_current: &Option<String>) -> (r:
        Worktree)
        ensures
            r.dirname@ == derive_name_spec(self.path@),
            r.branch_name == self.branch,
            r.path == self.path,
            r.is_current == path_starts_with_spec(cwd@, self.path@),
            r.is_bare == is_bare,
            r.is_detached == self.is_detached,
            r.head_commit.deep_view() == self@.head_commit,
            r.upstream_branch == (if path_starts_with_spec(cwd@, self.path@) {
                *upstream_if_current
            } else {
                None::<String>
            }),
    {
        let is_current = path_starts_with(cwd, self.path.as_str());
        let name = self.derive_worktree_name();
        let head = match &self.head_commit {
            Some(h) => Some(h.clone()),
            None => None,
        };
        let upstream = if is_current {
            match upstream_if_current {
                Some(u) => Some(u.clone()),
                None => None,
            }
        } else {
            None
        };
        Worktree::new(
            name,
            self.branch.clone(),
            self.path.clone(),
            is_current,
            is_bare,
            self.is_detached,
            head,
            upstream,
        )
    }
}

/// How one finished record reflects one raw entry of the listing.
pub open spec fn matches_entry(
    w: Worktree,
    e: RawEntry,
    cwd: Seq<char>,
    is_bare: bool,
    upstream: Option<Seq<char>>,
) -> bool {
    &&& w.dirname@ == derive_name_spec(e.path)
    &&& w.branch_name@ == e.branch
    &&& w.path@ == e.path
    &&& w.is_current == path_starts_with_spec(cwd, e.path)
    &&& w.is_bare == is_bare
    &&& w.is_detached == e.is_detached
    &&& w.head_commit.deep_view() == e.head_commit
    &&& w.upstream_branch.deep_view() == (if w.is_current {
        upstream
    } else {
        None::<Seq<char>>
    })
}

/// Parses the machine-readable worktree listing into finished records.
/// `cwd` is the invoking process's working directory, used to mark records
/// current; `upstream_of_current` is the remote-tracking ref the caller
/// resolved for its own working copy, attached only to current records.
pub fn parse_worktrees(
    text: &str,
    cwd: &str,
    is_bare: bool,
    upstream_of_current: Option<String>,
) -> (v: Vec<Worktree>)
    ensures
        v@.len() == parse_porcelain(text@).len(),
        forall|i: int|
            0 <= i < v@.len() ==> matches_entry(
                #[trigger] v@[i],
                parse_porcelain(text@)[i],
                cwd@,
                is_bare,
                upstream_of_current.deep_view(),
            ),
{
    let data = parse_worktree_data(text);
    let mut v: Vec<Worktree> = Vec::new();
    let mut i: usize = 0;
    while i < data.len()
        invariant
            i <= data@.len(),
            entries_of(data@) == parse_porcelain(text@),
            v@.len() == i,
            forall|j: int|
                0 <= j < i ==> matches_entry(
                    #[trigger] v@[j],
                    parse_porcelain(text@)[j],
                    cwd@,
                    is_bare,
                    upstream_of_current.deep_view(),
                ),
        decreases data@.len() - i,
    {
        let w = data[i].to_worktree(cwd, is_bare, &upstream_of_current);
        proof {
            assert(entries_of(data@)[i as int] == data@[i as int]@);
        }
        v.push(w);
        i = i + 1;
    }
    v
}

// ---------------------------------------------------------------------------
// What single lines and single groups do
// ---------------------------------------------------------------------------

/// An empty listing holds no records.
pub proof fn lemma_parse_empty()
    ensures
        parse_porcelain(Seq::<char>::empty()) == Seq::<RawEntry>::empty(),
{
    assert(lines_spec(Seq::<char>::empty()) == Seq::<Seq<char>>::empty());
    assert(parse_lines_rec(Seq::<Seq<char>>::empty()).0 =~= Seq::<RawEntry>::empty());
}

/// A `<key> <value>` line splits at the first space when the key itself has
/// none.
pub proof fn lemma_kv_line(key: Seq<char>, rest: Seq<char>)
    requires
        forall|j: int| 0 <= j < key.len() ==> key[j] != ' ',
    ensures
        find_first(key + seq![' '] + rest, ' ') == key.len(),
        (key + seq![' '] + rest).take(key.len() as int) == key,
        (key + seq![' '] + rest).skip(key.len() + 1 as int) == rest,
        (key + seq![' '] + rest).len() == key.len() + 1 + rest.len(),
{
    let line = key + seq![' '] + rest;
    assert(line[key.len() as int] == ' ');
    assert forall|j: int| 0 <= j < key.len() implies line[j] != ' ' by {
        assert(line[j] == key[j]);
    }
    lemma_find_first_is(line, ' ', key.len() as int);
    assert(line.take(key.len() as int) =~= key);
    assert(line.skip(key.len() + 1 as int) =~= rest);
}

/// A `branch refs/heads/<r>` line on an open record sets the display
/// branch to `<r>` and clears the detached flag, whatever `<r>` is.
pub proof fn lemma_branch_line(acc: Seq<RawEntry>, e: RawEntry, r: Seq<char>)
    ensures
        apply_line(acc, Some(e), "branch refs/heads/"@ + r) == (
            acc,
            Some(
                RawEntry {
                    path: e.path,
                    branch: r,
                    head_commit: e.head_commit,
                    is_detached: false,
                },
            ),
        ),
{
    reveal_strlit("branch refs/heads/");
    reveal_strlit("branch");
    reveal_strlit("refs/heads/");
    reveal_strlit("worktree");
    let line = "branch refs/heads/"@ + r;
    let v = "refs/heads/"@ + r;
    assert(line =~= "branch"@ + seq![' '] + v);
    lemma_kv_line("branch"@, v);
    assert(line.take("branch"@.len() as int) == "branch"@);
    assert("branch"@ != "worktree"@);
    reveal_strlit("HEAD");
    assert("branch"@ != "HEAD"@);
    assert(v.take("refs/heads/"@.len() as int) =~= "refs/heads/"@);
    assert(has_prefix(v, "refs/heads/"@));
    assert(strip_ref_prefix(v) =~= r);
    assert(line.len() > 0);
    assert(find_first(line, ' ') < line.len());
}

/// A bare `detached` line on an open record sets the detached flag and
/// leaves the branch as it stood — `HEAD`, for a freshly opened record.
pub proof fn lemma_detached_line(acc: Seq<RawEntry>, e: RawEntry)
    ensures
        apply_line(acc, Some(e), "detached"@) == (
            acc,
            Some(
                RawEntry {
                    path: e.path,
                    branch: e.branch,
                    head_commit: e.head_commit,
                    is_detached: true,
                },
            ),
        ),
{
    reveal_strlit("detached");
    let line = "detached"@;
    assert forall|j: int| 0 <= j < line.len() implies line[j] != ' ' by {}
    lemma_find_first_none(line, ' ');
}

/// One well-formed group — `worktree <p>`, `HEAD <h>`,
/// `branch refs/heads/<b>` — parses to exactly one record, whose fields
/// are the group's values.
pub proof fn lemma_single_group(p: Seq<char>, h: Seq<char>, b: Seq<char>)
    ensures
        ({
            let st = parse_lines_rec(
                seq!["worktree "@ + p, "HEAD "@ + h, "branch refs/heads/"@ + b],
            );
            emit(st.0, st.1) == seq![
                RawEntry { path: p, branch: b, head_commit: Some(h), is_detached: false },
            ]
        }),
{
    reveal_strlit("worktree ");
    reveal_strlit("worktree");
    reveal_strlit("HEAD ");
    reveal_strlit("HEAD");
    let l1 = "worktree "@ + p;
    let l2 = "HEAD "@ + h;
    let l3 = "branch refs/heads/"@ + b;
    let lines = seq![l1, l2, l3];

    assert(lines.drop_last() =~~= seq![l1, l2]);
    assert(seq![l1, l2].drop_last() =~~= seq![l1]);
    assert(seq![l1].drop_last() =~~= Seq::<Seq<char>>::empty());
    assert(parse_lines_rec(Seq::<Seq<char>>::empty()) == (
        Seq::<RawEntry>::empty(),
        None::<RawEntry>,
    ));

    // worktree <p>
    assert(l1 =~= "worktree"@ + seq![' '] + p);
    lemma_kv_line("worktree"@, p);
    assert(l1.take("worktree"@.len() as int) == "worktree"@);
    let st1 = parse_lines_rec(seq![l1]);
    assert(st1 == (Seq::<RawEntry>::empty(), Some(fresh_entry(p))));

    // HEAD <h>
    assert(l2 =~= "HEAD"@ + seq![' '] + h);
    lemma_kv_line("HEAD"@, h);
    assert(l2.take("HEAD"@.len() as int) == "HEAD"@);
    assert("HEAD"@ != "worktree"@);
    let e1 = fresh_entry(p);
    let e2 = RawEntry { path: p, branch: "HEAD"@, head_commit: Some(h), is_detached: false };
    let st2 = parse_lines_rec(seq![l1, l2]);
    assert(st2 == (Seq::<RawEntry>::empty(), Some(e2)));

    // branch refs/heads/<b>
    lemma_branch_line(Seq::<RawEntry>::empty(), e2, b);
    let st3 = parse_lines_rec(lines);
    let e3 = RawEntry { path: p, branch: b, head_commit: Some(h), is_detached: false };
    assert(st3 == (Seq::<RawEntry>::empty(), Some(e3)));
    assert(emit(st3.0, st3.1) =~= seq![e3]);
}

/// A group of `worktree <p>` and a bare `detached` line parses to one
/// detached record whose branch stands at its default, `HEAD`.
pub proof fn lemma_detached_group(p: Seq<char>)
    ensures
        ({
            let st = parse_lines_rec(seq!["worktree "@ + p, "detached"@]);
            emit(st.0, st.1) == seq![
                RawEntry { path: p, branch: "HEAD"@, head_commit: None, is_detached: true },
            ]
        }),
{
    reveal_strlit("worktree ");
    reveal_strlit("worktree");
    let l1 = "worktree "@ + p;
    let l2 = "detached"@;
    let lines = seq![l1, l2];
    assert(lines.drop_last() =~~= seq![l1]);
    assert(seq![l1].drop_last() =~~= Seq::<Seq<char>>::empty());
    assert(parse_lines_rec(Seq::<Seq<char>>::empty()) == (
        Seq::<RawEntry>::empty(),
        None::<RawEntry>,
    ));

    assert(l1 =~= "worktree"@ + seq![' '] + p);
    lemma_kv_line("worktree"@, p);
    assert(l1.take("worktree"@.len() as int) == "worktree"@);
    let st1 = parse_lines_rec(seq![l1]);
    assert(st1 == (Seq::<RawEntry>::empty(), Some(fresh_entry(p))));

    lemma_detached_line(Seq::<RawEntry>::empty(), fresh_entry(p));
    let e = RawEntry { path: p, branch: "HEAD"@, head_commit: None, is_detached: true };
    let st2 = parse_lines_rec(lines);
    assert(st2 == (Seq::<RawEntry>::empty(), Some(e)));
    assert(emit(st2.0, st2.1) =~= seq![e]);
}

} // verus!
