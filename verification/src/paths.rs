use vstd::prelude::*;

use crate::strutil::{
    contains_seq, has_prefix, join_strings, join_with, split_all, split_char, str_contains,
    str_eq, strip_prefix_str, views_of,
};
use crate::errors::WorktreeError;

verus! {

// ---------------------------------------------------------------------------
// A component model of '/'-separated paths
// ---------------------------------------------------------------------------

/// A path is absolute when it begins with the root separator.
pub open spec fn is_abs(p: Seq<char>) -> bool {
    p.len() > 0 && p[0] == '/'
}

/// The non-empty segments of a split, in order.
pub open spec fn keep_nonempty(parts: Seq<Seq<char>>) -> Seq<Seq<char>>
    decreases parts.len(),
{
    if parts.len() == 0 {
        Seq::empty()
    } else if parts.last().len() > 0 {
        keep_nonempty(parts.drop_last()).push(parts.last())
    } else {
        keep_nonempty(parts.drop_last())
    }
}

/// The normal components of a path: its non-empty '/'-separated segments.
pub open spec fn path_parts(p: Seq<char>) -> Seq<Seq<char>> {
    keep_nonempty(split_all(p, '/'))
}

/// Component-wise path prefix, as the VCS sees paths: `b` is an ancestor of
/// (or equal to) `c`. An empty relative `b` is a prefix of everything; an
/// absolute `b` only ever prefixes an absolute `c`.
pub open spec fn path_starts_with_spec(c: Seq<char>, b: Seq<char>) -> bool {
    if path_parts(b).len() == 0 && !is_abs(b) {
        true
    } else {
        is_abs(b) == is_abs(c) && path_parts(b).is_prefix_of(path_parts(c))
    }
}

/// Component-wise path equality: same absoluteness, same components.
pub open spec fn paths_equal_spec(a: Seq<char>, b: Seq<char>) -> bool {
    is_abs(a) == is_abs(b) && path_parts(a) == path_parts(b)
}

fn is_abs_exec(p: &str) -> (r: bool)
    ensures
        r == is_abs(p@),
{
    p.unicode_len() > 0 && p.get_char(0) == '/'
}

/// The non-empty components of `path`, in order.
pub fn path_components(path: &str) -> (v: Vec<String>)
    ensures
        views_of(v@) == path_parts(path@),
{
    let parts = split_char(path, '/');
    let mut v: Vec<String> = Vec::new();
    let mut i: usize = 0;
    proof {
        assert(views_of(parts@).take(0) =~~= Seq::<Seq<char>>::empty());
        assert(views_of(v@) =~~= keep_nonempty(views_of(parts@).take(0)));
    }
    while i < parts.len()
        invariant
            i <= parts@.len(),
            views_of(v@) == keep_nonempty(views_of(parts@).take(i as int)),
        decreases parts@.len() - i,
    {
        let ghost prev = v@;
        if parts[i].unicode_len() > 0 {
            v.push(parts[i].clone());
        }
        proof {
            let all = views_of(parts@);
            assert(all.take(i + 1).drop_last() =~~= all.take(i as int));
            assert(all.take(i + 1).last() == all[i as int]);
            if all[i as int].len() > 0 {
                assert(views_of(v@) =~~= views_of(prev).push(all[i as int]));
            }
        }
        i = i + 1;
    }
    proof {
        assert(views_of(parts@).take(parts@.len() as int) =~~= views_of(parts@));
    }
    v
}

/// Whether `child` lies at or under `base`, comparing whole components.
pub fn path_starts_with(child: &str, base: &str) -> (r: bool)
    ensures
        r == path_starts_with_spec(child@, base@),
{
    let bp = path_components(base);
    let cp = path_components(child);
    let babs = is_abs_exec(base);
    let cabs = is_abs_exec(child);
    if bp.len() == 0 && !babs {
        return true;
    }
    if babs != cabs {
        assert(!path_starts_with_spec(child@, base@));
        return false;
    }
    if bp.len() > cp.len() {
        assert(!path_parts(base@).is_prefix_of(path_parts(child@)));
        return false;
    }
    let mut i: usize = 0;
    while i < bp.len()
        invariant
            i <= bp@.len() <= cp@.len(),
            views_of(bp@) == path_parts(base@),
            views_of(cp@) == path_parts(child@),
            forall|j: int| 0 <= j < i ==> views_of(bp@)[j] == views_of(cp@)[j],
        decreases bp@.len() - i,
    {
        if !str_eq(bp[i].as_str(), cp[i].as_str()) {
            assert(path_parts(base@)[i as int] != path_parts(child@)[i as int]);
            assert(!path_parts(base@).is_prefix_of(path_parts(child@)));
            return false;
        }
        i = i + 1;
    }
    proof {
        assert(path_parts(base@) =~~= path_parts(child@).take(bp@.len() as int));
    }
    true
}

/// Whether `a` and `b` name the same path, comparing whole components.
pub fn paths_equal(a: &str, b: &str) -> (r: bool)
    ensures
        r == paths_equal_spec(a@, b@),
{
    let ap = path_components(a);
    let bp = path_components(b);
    if is_abs_exec(a) != is_abs_exec(b) {
        return false;
    }
    if ap.len() != bp.len() {
        assert(path_parts(a@).len() != path_parts(b@).len());
        return false;
    }
    let mut i: usize = 0;
    while i < ap.len()
        invariant
            i <= ap@.len(),
            ap@.len() == bp@.len(),
            views_of(ap@) == path_parts(a@),
            views_of(bp@) == path_parts(b@),
            forall|j: int| 0 <= j < i ==> views_of(ap@)[j] == views_of(bp@)[j],
        decreases ap@.len() - i,
    {
        if !str_eq(ap[i].as_str(), bp[i].as_str()) {
            assert(path_parts(a@)[i as int] != path_parts(b@)[i as int]);
            return false;
        }
        i = i + 1;
    }
    proof {
        assert(path_parts(a@) =~~= path_parts(b@));
    }
    true
}

// ---------------------------------------------------------------------------
// Syntactic cleaning
// ---------------------------------------------------------------------------

/// Resolution of a component list: empty and `.` segments vanish, `..` pops
/// the previous normal component when there is one and is absorbed
/// otherwise, so it can never cross the root.
pub open spec fn resolve(parts: Seq<Seq<char>>) -> Seq<Seq<char>>
    decreases parts.len(),
{
    if parts.len() == 0 {
        Seq::empty()
    } else {
        let prev = resolve(parts.drop_last());
        let last = parts.last();
        if last.len() == 0 || last == seq!['.'] {
            prev
        } else if last == seq!['.', '.'] {
            if prev.len() > 0 {
                prev.drop_last()
            } else {
                prev
            }
        } else {
            prev.push(last)
        }
    }
}

/// The syntactic clean of a path: its components resolved and rejoined,
/// keeping the root when the path is absolute.
pub open spec fn clean_spec(p: Seq<char>) -> Seq<char> {
    if is_abs(p) {
        seq!['/'] + join_with(resolve(split_all(p, '/')), '/')
    } else {
        join_with(resolve(split_all(p, '/')), '/')
    }
}

/// Removes `.` and `..` components without consulting the filesystem.
/// `..` pops the previous component unless that would cross the root.
pub fn clean_path(path: &str) -> (r: String)
    ensures
        r@ == clean_spec(path@),
{
    let parts = split_char(path, '/');
    let mut kept: Vec<String> = Vec::new();
    let mut i: usize = 0;
    proof {
        reveal_strlit(".");
        reveal_strlit("..");
        assert("."@ =~= seq!['.']);
        assert(".."@ =~= seq!['.', '.']);
        assert(views_of(parts@).take(0) =~~= Seq::<Seq<char>>::empty());
        assert(views_of(kept@) =~~= resolve(views_of(parts@).take(0)));
    }
    while i < parts.len()
        invariant
            i <= parts@.len(),
            views_of(kept@) == resolve(views_of(parts@).take(i as int)),
        decreases parts@.len() - i,
    {
        let ghost prev = kept@;
        let part = parts[i].as_str();
        if part.unicode_len() == 0 || str_eq(part, ".") {
            // dropped
        } else if str_eq(part, "..") {
            if kept.len() > 0 {
                kept.pop();
            }
        } else {
            kept.push(part.to_owned());
        }
        proof {
            reveal_strlit(".");
            reveal_strlit("..");
            assert("."@ =~= seq!['.']);
            assert(".."@ =~= seq!['.', '.']);
            let all = views_of(parts@);
            assert(all.take(i + 1).drop_last() =~~= all.take(i as int));
            assert(all.take(i + 1).last() == all[i as int]);
            if all[i as int].len() == 0 || all[i as int] == seq!['.'] {
                assert(views_of(kept@) =~~= views_of(prev));
            } else if all[i as int] == seq!['.', '.'] {
                if prev.len() > 0 {
                    assert(views_of(kept@) =~~= views_of(prev).drop_last());
                } else {
                    assert(views_of(kept@) =~~= views_of(prev));
                }
            } else {
                assert(views_of(kept@) =~~= views_of(prev).push(all[i as int]));
            }
        }
        i = i + 1;
    }
    proof {
        assert(views_of(parts@).take(parts@.len() as int) =~~= views_of(parts@));
    }
    let joined = join_strings(&kept, '/');
    if is_abs_exec(path) {
        let mut out = root_string();
        out.append(joined.as_str());
        out
    } else {
        joined
    }
}

/// A fresh `String` holding the root separator alone.
fn root_string() -> (r: String)
    ensures
        r@ == seq!['/'],
{
    let r = String::from_str("/");
    proof {
        reveal_strlit("/");
        assert(r@ =~= seq!['/']);
    }
    r
}

} // verus!

verus! {

// ---------------------------------------------------------------------------
// Taking paths apart and putting them together
// ---------------------------------------------------------------------------

/// The final normal component of a path, if it has one.
pub open spec fn file_name_spec(p: Seq<char>) -> Option<Seq<char>> {
    if path_parts(p).len() > 0 {
        Some(path_parts(p).last())
    } else {
        None
    }
}

pub fn file_name(path: &str) -> (r: Option<String>)
    ensures
        match r {
            Some(s) => file_name_spec(path@) == Some(s@),
            None => file_name_spec(path@) is None,
        },
{
    let comps = path_components(path);
    if comps.len() > 0 {
        let s = comps[comps.len() - 1].clone();
        proof {
            assert(s@ == path_parts(path@).last());
        }
        Some(s)
    } else {
        None
    }
}

/// A path rebuilt from its absoluteness and its components.
pub open spec fn unparse(abs: bool, parts: Seq<Seq<char>>) -> Seq<char> {
    if abs {
        seq!['/'] + join_with(parts, '/')
    } else {
        join_with(parts, '/')
    }
}

/// The path with its final normal component removed, if it has one.
pub open spec fn parent_spec(p: Seq<char>) -> Option<Seq<char>> {
    if path_parts(p).len() == 0 {
        None
    } else {
        Some(unparse(is_abs(p), path_parts(p).drop_last()))
    }
}

pub fn parent_path(path: &str) -> (r: Option<String>)
    ensures
        match r {
            Some(s) => parent_spec(path@) == Some(s@),
            None => parent_spec(path@) is None,
        },
{
    let mut comps = path_components(path);
    if comps.len() == 0 {
        return None;
    }
    comps.pop();
    proof {
        assert(views_of(comps@) =~~= path_parts(path@).drop_last());
    }
    let joined = join_strings(&comps, '/');
    if is_abs_exec(path) {
        let mut out = root_string();
        out.append(joined.as_str());
        Some(out)
    } else {
        Some(joined)
    }
}

/// `base` extended by one further component.
pub open spec fn join_path_spec(base: Seq<char>, comp: Seq<char>) -> Seq<char> {
    if base.len() == 0 {
        comp
    } else if base.last() == '/' {
        base + comp
    } else {
        base + seq!['/'] + comp
    }
}

pub fn join_path(base: &str, comp: &str) -> (r: String)
    ensures
        r@ == join_path_spec(base@, comp@),
{
    let n = base.unicode_len();
    if n == 0 {
        return comp.to_owned();
    }
    let mut out = base.to_owned();
    if base.get_char(n - 1) != '/' {
        out.push('/');
    }
    out.append(comp);
    out
}

// ---------------------------------------------------------------------------
// Extended-length prefixes
// ---------------------------------------------------------------------------

/// An extended-length path rewritten to the plain form the VCS understands:
/// the UNC form gets the ordinary double-separator prefix, the plain form
/// loses its prefix, and any other path is unchanged.
pub open spec fn rewrite_prefix_spec(p: Seq<char>) -> Seq<char> {
    if has_prefix(p, "//?/UNC/"@) {
        "//"@ + p.skip("//?/UNC/"@.len() as int)
    } else if has_prefix(p, "//?/"@) {
        p.skip("//?/"@.len() as int)
    } else {
        p
    }
}

pub fn rewrite_extended_prefix(path: &str) -> (r: String)
    ensures
        r@ == rewrite_prefix_spec(path@),
{
    if let Some(rest) = strip_prefix_str(path, "//?/UNC/") {
        let mut out = String::from_str("//");
        out.append(rest);
        out
    } else if let Some(rest) = strip_prefix_str(path, "//?/") {
        rest.to_owned()
    } else {
        path.to_owned()
    }
}

/// The canonical form of a path for handing to the VCS, derived without
/// consulting the filesystem: `.` and `..` components are resolved
/// syntactically. A caller that can canonicalize an existing path against
/// the live filesystem may do so instead; this form is the fallback that
/// never fails.
pub fn normalize_path_for_git(path: &str) -> (r: String)
    ensures
        r@ == clean_spec(path@),
{
    clean_path(path)
}

// ---------------------------------------------------------------------------
// The root absorbs parent components
// ---------------------------------------------------------------------------

/// A `..` standing before any normal component is absorbed: it never pops
/// the root, so resolving it first changes nothing.
pub proof fn lemma_parent_at_root(parts: Seq<Seq<char>>)
    ensures
        resolve(seq![seq!['.', '.']].add(parts)) == resolve(parts),
    decreases parts.len(),
{
    let dd = seq!['.', '.'];
    if parts.len() == 0 {
        assert(seq![dd].add(parts) =~~= seq![dd]);
        assert(seq![dd].drop_last() =~~= Seq::<Seq<char>>::empty());
        assert(resolve(Seq::<Seq<char>>::empty()) == Seq::<Seq<char>>::empty());
        assert(seq![dd].last() == dd);
        assert(resolve(seq![dd]) == Seq::<Seq<char>>::empty());
    } else {
        lemma_parent_at_root(parts.drop_last());
        assert(seq![dd].add(parts).drop_last() =~~= seq![dd].add(parts.drop_last()));
        assert(seq![dd].add(parts).last() == parts.last());
    }
}

} // verus!

verus! {

// ---------------------------------------------------------------------------
// Validation
// ---------------------------------------------------------------------------

/// Whether a character counts as alphanumeric under Unicode.
pub uninterp spec fn unicode_alphanumeric(c: char) -> bool;

/// Relies on `char::is_alphanumeric`: whether the character is in one of
/// the Unicode letter or number categories, a fixed property of the
/// character alone.
pub assume_specification[ char::is_alphanumeric ](c: char) -> (r: bool)
    ensures
        r == unicode_alphanumeric(c),
;

/// A worktree name: non-empty, alphanumeric plus `-` and `_`, not starting
/// with a dot, and none of the VCS's reserved ref names.
pub open spec fn valid_worktree_name(s: Seq<char>) -> bool {
    &&& s.len() > 0
    &&& forall|i: int|
        0 <= i < s.len() ==> (unicode_alphanumeric(#[trigger] s[i]) || s[i] == '-' || s[i] == '_')
    &&& s[0] != '.'
    &&& s != "HEAD"@
    &&& s != "FETCH_HEAD"@
    &&& s != "ORIG_HEAD"@
    &&& s != "MERGE_HEAD"@
}

pub fn validate_worktree_name(name: &str) -> (r: Result<(), WorktreeError>)
    ensures
        r is Ok <==> valid_worktree_name(name@),
        r is Err ==> r matches Err(WorktreeError::InvalidName(_)),
{
    let n = name.unicode_len();
    if n == 0 {
        return Err(WorktreeError::InvalidName(String::from_str("Worktree name cannot be empty")));
    }
    let mut i: usize = 0;
    while i < n
        invariant
            i <= n,
            n == name@.len(),
            forall|j: int|
                0 <= j < i ==> (unicode_alphanumeric(#[trigger] name@[j]) || name@[j] == '-'
                    || name@[j] == '_'),
        decreases n - i,
    {
        let c = name.get_char(i);
        if !(c.is_alphanumeric() || c == '-' || c == '_') {
            return Err(
                WorktreeError::InvalidName(
                    String::from_str("Worktree name contains invalid characters"),
                ),
            );
        }
        i = i + 1;
    }
    if name.get_char(0) == '.' {
        return Err(
            WorktreeError::InvalidName(String::from_str("Worktree name cannot start with '.'")),
        );
    }
    if str_eq(name, "HEAD") || str_eq(name, "FETCH_HEAD") || str_eq(name, "ORIG_HEAD") || str_eq(
        name,
        "MERGE_HEAD",
    ) {
        let mut msg = String::from_str("Worktree name '");
        msg.append(name);
        msg.append("' is reserved by Git");
        return Err(WorktreeError::InvalidName(msg));
    }
    Ok(())
}

/// A branch name: non-empty, no leading or trailing `-`, no `..`, and only
/// alphanumerics plus `/`, `-`, `_` and `.`.
pub open spec fn valid_branch_name(s: Seq<char>) -> bool {
    &&& s.len() > 0
    &&& s[0] != '-'
    &&& s.last() != '-'
    &&& !contains_seq(s, ".."@)
    &&& forall|i: int|
        0 <= i < s.len() ==> (unicode_alphanumeric(#[trigger] s[i]) || s[i] == '/' || s[i] == '-'
            || s[i] == '_' || s[i] == '.')
}

pub fn validate_branch_name(name: &str) -> (r: Result<(), WorktreeError>)
    ensures
        r is Ok <==> valid_branch_name(name@),
        r is Err ==> r matches Err(WorktreeError::InvalidBranchName(_)),
{
    let n = name.unicode_len();
    if n == 0 {
        return Err(
            WorktreeError::InvalidBranchName(String::from_str("Branch name cannot be empty")),
        );
    }
    if name.get_char(0) == '-' || name.get_char(n - 1) == '-' {
        return Err(
            WorktreeError::InvalidBranchName(
                String::from_str("Branch name cannot start or end with '-'"),
            ),
        );
    }
    if str_contains(name, "..") {
        return Err(
            WorktreeError::InvalidBranchName(String::from_str("Branch name cannot contain '..'")),
        );
    }
    let mut i: usize = 0;
    while i < n
        invariant
            i <= n,
            n == name@.len(),
            forall|j: int|
                0 <= j < i ==> (unicode_alphanumeric(#[trigger] name@[j]) || name@[j] == '/'
                    || name@[j] == '-' || name@[j] == '_' || name@[j] == '.'),
        decreases n - i,
    {
        let c = name.get_char(i);
        if !(c.is_alphanumeric() || c == '/' || c == '-' || c == '_' || c == '.') {
            let mut msg = String::from_str("Branch name contains invalid character: '");
            msg.push(c);
            msg.append("'");
            return Err(WorktreeError::InvalidBranchName(msg));
        }
        i = i + 1;
    }
    Ok(())
}

/// What a caller has observed of a candidate worktree path on disk; the
/// probes themselves are the caller's to make.
#[derive(Clone, Copy, Debug)]
pub struct PathProbe {
    /// The path exists.
    pub exists: bool,
    /// The path is a directory.
    pub is_dir: bool,
    /// The path contains the VCS's per-worktree metadata entry.
    pub has_git_marker: bool,
}

/// A worktree path is acceptable when it is absolute, lies outside the main
/// repository, and — where something already exists there — is a directory
/// carrying worktree metadata.
pub open spec fn valid_worktree_path(path: Seq<char>, repo_root: Seq<char>, probe: PathProbe) -> bool {
    &&& is_abs(path)
    &&& !path_starts_with_spec(path, repo_root)
    &&& (probe.exists ==> probe.is_dir && probe.has_git_marker)
}

pub fn validate_worktree_path(path: &str, repo_root: &str, probe: PathProbe) -> (r: Result<
    (),
    WorktreeError,
>)
    ensures
        r is Ok <==> valid_worktree_path(path@, repo_root@, probe),
        r is Err ==> r matches Err(WorktreeError::InvalidPath(_)),
{
    if !is_abs_exec(path) {
        return Err(WorktreeError::InvalidPath(String::from_str("Worktree path must be absolute")));
    }
    if path_starts_with(path, repo_root) {
        return Err(
            WorktreeError::InvalidPath(
                String::from_str("Worktree cannot be inside main repository"),
            ),
        );
    }
    if probe.exists {
        if !probe.is_dir {
            return Err(
                WorktreeError::InvalidPath(String::from_str("Worktree path must be a directory")),
            );
        }
        if !probe.has_git_marker {
            return Err(
                WorktreeError::InvalidPath(String::from_str("Path is not a valid worktree")),
            );
        }
    }
    Ok(())
}

} // verus!
