use vstd::prelude::*;

verus! {

// ---------------------------------------------------------------------------
// Character search
// ---------------------------------------------------------------------------

/// Index of the first occurrence of `c` in `s`, or `s.len()` if `c` does not
/// occur.
pub open spec fn find_first(s: Seq<char>, c: char) -> nat
    decreases s.len(),
{
    if s.len() == 0 {
        0
    } else if s[0] == c {
        0
    } else {
        1 + find_first(s.drop_first(), c)
    }
}

/// The characterization (a match at `i`, nothing before) determines `find_first`.
pub proof fn lemma_find_first_is(s: Seq<char>, c: char, i: int)
    requires
        0 <= i < s.len(),
        s[i] == c,
        forall|j: int| 0 <= j < i ==> s[j] != c,
    ensures
        find_first(s, c) == i,
    decreases s.len(),
{
    if s[0] == c {
        assert(i == 0);
    } else {
        assert(i > 0);
        lemma_find_first_is(s.drop_first(), c, i - 1);
    }
}

pub proof fn lemma_find_first_none(s: Seq<char>, c: char)
    requires
        forall|j: int| 0 <= j < s.len() ==> s[j] != c,
    ensures
        find_first(s, c) == s.len(),
    decreases s.len(),
{
    if s.len() > 0 {
        assert forall|j: int| 0 <= j < s.drop_first().len() implies s.drop_first()[j] != c by {
            assert(s[j + 1] != c);
        }
        lemma_find_first_none(s.drop_first(), c);
    }
}

/// The position of the first occurrence of `c` in `s`, if any.
pub fn find_char(s: &str, c: char) -> (r: Option<usize>)
    ensures
        match r {
            Some(i) => i as nat == find_first(s@, c) && i < s@.len(),
            None => find_first(s@, c) == s@.len(),
        },
{
    let n = s.unicode_len();
    let mut i: usize = 0;
    while i < n
        invariant
            i <= n,
            n == s@.len(),
            forall|j: int| 0 <= j < i ==> s@[j] != c,
        decreases n - i,
    {
        if s.get_char(i) == c {
            proof {
                lemma_find_first_is(s@, c, i as int);
            }
            return Some(i);
        }
        i = i + 1;
    }
    proof {
        lemma_find_first_none(s@, c);
    }
    None
}

// ---------------------------------------------------------------------------
// Prefix, suffix, substring
// ---------------------------------------------------------------------------

pub open spec fn has_prefix(s: Seq<char>, p: Seq<char>) -> bool {
    p.len() <= s.len() && s.take(p.len() as int) == p
}

pub fn starts_with_str(s: &str, p: &str) -> (r: bool)
    ensures
        r == has_prefix(s@, p@),
{
    let n = s.unicode_len();
    let m = p.unicode_len();
    if m > n {
        assert(!has_prefix(s@, p@));
        return false;
    }
    let mut i: usize = 0;
    while i < m
        invariant
            i <= m,
            m <= n,
            n == s@.len(),
            m == p@.len(),
            forall|j: int| 0 <= j < i ==> s@[j] == p@[j],
        decreases m - i,
    {
        if s.get_char(i) != p.get_char(i) {
            assert(s@.take(m as int)[i as int] != p@[i as int]);
            return false;
        }
        i = i + 1;
    }
    proof {
        assert(s@.take(m as int) =~= p@);
    }
    true
}

/// The remainder of `s` after a prefix `p`, when `s` starts with `p`.
pub fn strip_prefix_str<'a>(s: &'a str, p: &str) -> (r: Option<&'a str>)
    ensures
        match r {
            Some(rest) => has_prefix(s@, p@) && rest@ == s@.skip(p@.len() as int),
            None => !has_prefix(s@, p@),
        },
{
    if starts_with_str(s, p) {
        let m = p.unicode_len();
        let n = s.unicode_len();
        Some(s.substring_char(m, n))
    } else {
        None
    }
}

pub open spec fn contains_seq(s: Seq<char>, p: Seq<char>) -> bool {
    exists|i: int|
        0 <= i && i + p.len() <= s.len() && #[trigger] s.subrange(i, i + p.len() as int) == p
}

/// Whether `p` occurs in `s` starting at position `i`.
fn match_at(s: &str, p: &str, i: usize) -> (r: bool)
    requires
        i + p@.len() <= s@.len(),
    ensures
        r == (s@.subrange(i as int, i + p@.len() as int) == p@),
{
    let n = s.unicode_len();
    let m = p.unicode_len();
    let mut j: usize = 0;
    while j < m
        invariant
            j <= m,
            m == p@.len(),
            n == s@.len(),
            i + m <= n,
            forall|k: int| 0 <= k < j ==> s@[i + k] == p@[k],
        decreases m - j,
    {
        if s.get_char(i + j) != p.get_char(j) {
            assert(s@.subrange(i as int, i + p@.len() as int)[j as int] != p@[j as int]);
            return false;
        }
        j = j + 1;
    }
    proof {
        assert(s@.subrange(i as int, i + p@.len() as int) =~= p@);
    }
    true
}

pub fn str_contains(s: &str, p: &str) -> (r: bool)
    ensures
        r == contains_seq(s@, p@),
{
    let n = s.unicode_len();
    let m = p.unicode_len();
    if m > n {
        return false;
    }
    if m == 0 {
        assert(s@.subrange(0, 0 + p@.len() as int) =~= p@);
        return true;
    }
    let mut i: usize = 0;
    while i <= n - m
        invariant
            i <= n - m + 1,
            0 < m <= n,
            n == s@.len(),
            m == p@.len(),
            forall|k: int| 0 <= k < i ==> #[trigger] s@.subrange(k, k + p@.len() as int) != p@,
        decreases n - i,
    {
        if match_at(s, p, i) {
            return true;
        }
        i = i + 1;
    }
    assert forall|k: int| 0 <= k && k + p@.len() <= s@.len() implies #[trigger] s@.subrange(
        k,
        k + p@.len() as int,
    ) != p@ by {
        assert(k < i);
    }
    false
}

// ---------------------------------------------------------------------------
// Case-insensitive (ASCII) comparison
// ---------------------------------------------------------------------------

/// The code point of `c` with an ASCII upper-case letter folded to lower case.
pub open spec fn fold_case(c: char) -> int {
    if 65 <= c as int && c as int <= 90 {
        c as int + 32
    } else {
        c as int
    }
}

/// Equality of two strings up to ASCII case.
pub open spec fn ci_equal(s: Seq<char>, t: Seq<char>) -> bool {
    s.len() == t.len() && forall|i: int| 0 <= i < s.len() ==> fold_case(s[i]) == fold_case(t[i])
}

pub fn eq_ignore_ascii_case_str(s: &str, t: &str) -> (r: bool)
    ensures
        r == ci_equal(s@, t@),
{
    let n = s.unicode_len();
    if n != t.unicode_len() {
        return false;
    }
    let mut i: usize = 0;
    while i < n
        invariant
            i <= n,
            n == s@.len(),
            n == t@.len(),
            forall|j: int| 0 <= j < i ==> fold_case(s@[j]) == fold_case(t@[j]),
        decreases n - i,
    {
        let a = s.get_char(i);
        let b = t.get_char(i);
        let ca = a as u32;
        let cb = b as u32;
        let fa = if 65 <= ca && ca <= 90 {
            ca + 32
        } else {
            ca
        };
        let fb = if 65 <= cb && cb <= 90 {
            cb + 32
        } else {
            cb
        };
        if fa != fb {
            return false;
        }
        i = i + 1;
    }
    true
}

/// Compares two string slices character by character.
pub fn str_eq(a: &str, b: &str) -> (r: bool)
    ensures
        r == (a@ == b@),
{
    let n = a.unicode_len();
    if n != b.unicode_len() {
        return false;
    }
    let mut i: usize = 0;
    while i < n
        invariant
            i <= n,
            n == a@.len(),
            n == b@.len(),
            forall|j: int| 0 <= j < i ==> a@[j] == b@[j],
        decreases n - i,
    {
        if a.get_char(i) != b.get_char(i) {
            return false;
        }
        i = i + 1;
    }
    proof {
        assert(a@ =~= b@);
    }
    true
}

} // verus!

verus! {

// ---------------------------------------------------------------------------
// Splitting
// ---------------------------------------------------------------------------

/// The segments of `s` between occurrences of `sep`, in order; an empty
/// input gives one empty segment, as `str::split` does.
pub open spec fn split_all(s: Seq<char>, sep: char) -> Seq<Seq<char>>
    decreases s.len(),
{
    let f = find_first(s, sep);
    if f >= s.len() {
        seq![s]
    } else {
        seq![s.take(f as int)] + split_all(s.skip(f + 1 as int), sep)
    }
}

/// `l` without one trailing carriage return.
pub open spec fn strip_cr(l: Seq<char>) -> Seq<char> {
    if l.len() > 0 && l.last() == '\r' {
        l.drop_last()
    } else {
        l
    }
}

/// The lines of `s`, as `str::lines` yields them: split at newlines, one
/// trailing carriage return removed from each line, and no final empty line.
pub open spec fn lines_spec(s: Seq<char>) -> Seq<Seq<char>>
    decreases s.len(),
{
    if s.len() == 0 {
        Seq::empty()
    } else {
        let f = find_first(s, '\n');
        if f >= s.len() {
            seq![strip_cr(s)]
        } else {
            seq![strip_cr(s.take(f as int))] + lines_spec(s.skip(f + 1 as int))
        }
    }
}

pub open spec fn views_of(v: Seq<String>) -> Seq<Seq<char>> {
    v.map_values(|t: String| t@)
}

pub fn split_char(s: &str, sep: char) -> (v: Vec<String>)
    ensures
        views_of(v@) == split_all(s@, sep),
{
    let n = s.unicode_len();
    let mut v: Vec<String> = Vec::new();
    let mut pos: usize = 0;
    proof {
        assert(s@.skip(0) =~= s@);
        assert(views_of(v@) + split_all(s@.skip(0), sep) =~~= split_all(s@, sep));
    }
    loop
        invariant_except_break
            pos <= n,
            n == s@.len(),
            split_all(s@, sep) == views_of(v@) + split_all(s@.skip(pos as int), sep),
        ensures
            views_of(v@) == split_all(s@, sep),
        decreases n - pos,
    {
        let ghost prev = v@;
        let mut k: usize = pos;
        while k < n && s.get_char(k) != sep
            invariant
                pos <= k <= n,
                n == s@.len(),
                forall|j: int| pos <= j < k ==> s@[j] != sep,
            decreases n - k,
        {
            k = k + 1;
        }
        proof {
            assert forall|j: int| 0 <= j < k - pos implies s@.skip(pos as int)[j] != sep by {
                assert(s@[pos + j] != sep);
            }
        }
        if k == n {
            v.push(s.substring_char(pos, n).to_owned());
            proof {
                lemma_find_first_none(s@.skip(pos as int), sep);
                assert(split_all(s@.skip(pos as int), sep) =~~= seq![s@.skip(pos as int)]);
                assert(s@.subrange(pos as int, n as int) =~= s@.skip(pos as int));
                assert(views_of(v@) =~~= views_of(prev).push(s@.skip(pos as int)));
                assert(views_of(v@) =~~= split_all(s@, sep));
            }
            break;
        } else {
            v.push(s.substring_char(pos, k).to_owned());
            proof {
                lemma_find_first_is(s@.skip(pos as int), sep, k - pos);
                assert(s@.skip(pos as int).take(k - pos) =~= s@.subrange(pos as int, k as int));
                assert(s@.skip(pos as int).skip(k - pos + 1) =~= s@.skip(k + 1));
                assert(split_all(s@.skip(pos as int), sep) =~~= seq![
                    s@.subrange(pos as int, k as int),
                ] + split_all(s@.skip(k + 1), sep));
                assert(views_of(v@) =~~= views_of(prev).push(s@.subrange(pos as int, k as int)));
                assert(views_of(v@) + split_all(s@.skip(k + 1), sep) =~~= views_of(prev)
                    + split_all(s@.skip(pos as int), sep));
            }
            pos = k + 1;
        }
    }
    v
}

pub fn split_lines(s: &str) -> (v: Vec<String>)
    ensures
        views_of(v@) == lines_spec(s@),
{
    let n = s.unicode_len();
    let mut v: Vec<String> = Vec::new();
    let mut pos: usize = 0;
    proof {
        assert(s@.skip(0) =~= s@);
        assert(views_of(v@) + lines_spec(s@.skip(0)) =~~= lines_spec(s@));
    }
    while pos < n
        invariant
            pos <= n,
            n == s@.len(),
            lines_spec(s@) == views_of(v@) + lines_spec(s@.skip(pos as int)),
        decreases n - pos,
    {
        let ghost prev = v@;
        let mut k: usize = pos;
        while k < n && s.get_char(k) != '\n'
            invariant
                pos <= k <= n,
                n == s@.len(),
                forall|j: int| pos <= j < k ==> s@[j] != '\n',
            decreases n - k,
        {
            k = k + 1;
        }
        proof {
            assert forall|j: int| 0 <= j < k - pos implies s@.skip(pos as int)[j] != '\n' by {
                assert(s@[pos + j] != '\n');
            }
        }
        let end = if k > pos && s.get_char(k - 1) == '\r' {
            k - 1
        } else {
            k
        };
        let line = s.substring_char(pos, end).to_owned();
        v.push(line);
        if k == n {
            proof {
                lemma_find_first_none(s@.skip(pos as int), '\n');
                assert(strip_cr(s@.skip(pos as int)) =~= s@.subrange(pos as int, end as int));
                assert(lines_spec(s@.skip(pos as int)) =~~= seq![strip_cr(s@.skip(pos as int))]);
                assert(views_of(v@) =~~= views_of(prev).push(s@.subrange(pos as int, end as int)));
                assert(views_of(v@) + lines_spec(s@.skip(n as int)) =~~= views_of(prev)
                    + lines_spec(s@.skip(pos as int)));
            }
            pos = n;
        } else {
            proof {
                lemma_find_first_is(s@.skip(pos as int), '\n', k - pos);
                assert(s@.skip(pos as int).take(k - pos) =~= s@.subrange(pos as int, k as int));
                assert(strip_cr(s@.subrange(pos as int, k as int)) =~= s@.subrange(
                    pos as int,
                    end as int,
                ));
                assert(s@.skip(pos as int).skip(k - pos + 1) =~= s@.skip(k + 1));
                assert(lines_spec(s@.skip(pos as int)) =~~= seq![
                    s@.subrange(pos as int, end as int),
                ] + lines_spec(s@.skip(k + 1)));
                assert(views_of(v@) =~~= views_of(prev).push(s@.subrange(pos as int, end as int)));
                assert(views_of(v@) + lines_spec(s@.skip(k + 1)) =~~= views_of(prev) + lines_spec(
                    s@.skip(pos as int),
                ));
            }
            pos = k + 1;
        }
    }
    v
}

} // verus!

verus! {

// ---------------------------------------------------------------------------
// Building strings
// ---------------------------------------------------------------------------

/// Relies on `String::push`: appends the given character to the end of the
/// string.
pub assume_specification[ String::push ](s: &mut String, ch: char)
    ensures
        final(s)@ == old(s)@.push(ch),
;

/// The segments joined with `sep` between each pair.
pub open spec fn join_with(parts: Seq<Seq<char>>, sep: char) -> Seq<char>
    decreases parts.len(),
{
    if parts.len() == 0 {
        Seq::empty()
    } else if parts.len() == 1 {
        parts[0]
    } else {
        join_with(parts.drop_last(), sep).push(sep) + parts.last()
    }
}

pub fn join_strings(parts: &Vec<String>, sep: char) -> (r: String)
    ensures
        r@ == join_with(views_of(parts@), sep),
{
    let mut out = String::new();
    let mut i: usize = 0;
    while i < parts.len()
        invariant
            i <= parts@.len(),
            out@ == join_with(views_of(parts@).take(i as int), sep),
        decreases parts@.len() - i,
    {
        if i > 0 {
            out.push(sep);
        }
        out.append(parts[i].as_str());
        proof {
            let all = views_of(parts@);
            assert(all.take(i + 1).drop_last() =~~= all.take(i as int));
            assert(all.take(i + 1).last() == all[i as int]);
        }
        i = i + 1;
    }
    proof {
        assert(views_of(parts@).take(parts@.len() as int) =~~= views_of(parts@));
    }
    out
}

/// Each character of `s`, with `from` replaced by `to`.
pub open spec fn replaced(s: Seq<char>, from: char, to: char) -> Seq<char> {
    s.map_values(
        |c: char|
            if c == from {
                to
            } else {
                c
            },
    )
}

pub fn replace_char(s: &str, from: char, to: char) -> (r: String)
    ensures
        r@ == replaced(s@, from, to),
{
    let n = s.unicode_len();
    let mut out = String::new();
    let mut i: usize = 0;
    while i < n
        invariant
            i <= n,
            n == s@.len(),
            out@ == replaced(s@.take(i as int), from, to),
        decreases n - i,
    {
        let c = s.get_char(i);
        if c == from {
            out.push(to);
        } else {
            out.push(c);
        }
        proof {
            assert(s@.take(i + 1).drop_last() =~= s@.take(i as int));
            assert(replaced(s@.take(i + 1), from, to) =~= replaced(s@.take(i as int), from, to)
                + seq![
                    if s@[i as int] == from {
                        to
                    } else {
                        s@[i as int]
                    },
            ]);
        }
        i = i + 1;
    }
    proof {
        assert(s@.take(n as int) =~= s@);
    }
    out
}

// ---------------------------------------------------------------------------
// Trimming ASCII whitespace
// ---------------------------------------------------------------------------

pub open spec fn is_ws(c: char) -> bool {
    c == ' ' || c == '\t' || c == '\n' || c == '\r'
}

pub open spec fn trim_start_spec(s: Seq<char>) -> Seq<char>
    decreases s.len(),
{
    if s.len() > 0 && is_ws(s[0]) {
        trim_start_spec(s.drop_first())
    } else {
        s
    }
}

pub open spec fn trim_end_spec(s: Seq<char>) -> Seq<char>
    decreases s.len(),
{
    if s.len() > 0 && is_ws(s.last()) {
        trim_end_spec(s.drop_last())
    } else {
        s
    }
}

/// `s` without leading and trailing ASCII whitespace.
pub open spec fn trim_spec(s: Seq<char>) -> Seq<char> {
    trim_end_spec(trim_start_spec(s))
}

fn is_ws_exec(c: char) -> (r: bool)
    ensures
        r == is_ws(c),
{
    c == ' ' || c == '\t' || c == '\n' || c == '\r'
}

pub fn trim_str(s: &str) -> (r: &str)
    ensures
        r@ == trim_spec(s@),
{
    let n = s.unicode_len();
    let mut lo: usize = 0;
    proof {
        assert(s@.skip(0) =~= s@);
    }
    while lo < n && is_ws_exec(s.get_char(lo))
        invariant
            lo <= n,
            n == s@.len(),
            trim_start_spec(s@) == trim_start_spec(s@.skip(lo as int)),
        decreases n - lo,
    {
        proof {
            assert(s@.skip(lo as int).drop_first() =~= s@.skip(lo + 1));
        }
        lo = lo + 1;
    }
    proof {
        if lo < n {
            assert(trim_start_spec(s@.skip(lo as int)) == s@.skip(lo as int));
        } else {
            assert(s@.skip(n as int) =~= Seq::<char>::empty());
        }
    }
    let mut hi: usize = n;
    proof {
        assert(s@.subrange(lo as int, n as int) =~= s@.skip(lo as int));
    }
    while hi > lo && is_ws_exec(s.get_char(hi - 1))
        invariant
            lo <= hi <= n,
            n == s@.len(),
            trim_end_spec(s@.skip(lo as int)) == trim_end_spec(s@.subrange(lo as int, hi as int)),
        decreases hi,
    {
        proof {
            assert(s@.subrange(lo as int, hi as int).drop_last() =~= s@.subrange(
                lo as int,
                hi - 1,
            ));
        }
        hi = hi - 1;
    }
    let r = s.substring_char(lo, hi);
    proof {
        if hi > lo {
            assert(trim_end_spec(s@.subrange(lo as int, hi as int)) == s@.subrange(
                lo as int,
                hi as int,
            ));
        } else {
            assert(s@.subrange(lo as int, lo as int) =~= Seq::<char>::empty());
        }
        assert(r@ == trim_spec(s@));
    }
    r
}

} // verus!
