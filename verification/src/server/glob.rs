//! The glob patterns that filter file listings. A pattern is matched
//! against the whole path: `*` stands for any run of characters within one
//! path segment (no `/`), `**` for any run of characters across segments,
//! and `**/` at the start of a segment may also stand for no segment at
//! all. A pattern that is just
//! `*` matches every path.

use vstd::prelude::*;
use crate::unicode::chars_of;

verus! {

/// Whether `p[i..]` matches `s[j..]`. `*` matches any run of characters
/// other than `/`. When `segments` holds, `**` matches any run of
/// characters, `/` included, and `**/` at the start of a segment also
/// matches the empty run; when it does not, `**` is two single stars.
pub open spec fn matches_from(p: Seq<char>, s: Seq<char>, i: int, j: int, segments: bool) -> bool
    decreases p.len() - i, s.len() - j,
{
    if i < 0 || j < 0 {
        false
    } else if i >= p.len() {
        j >= s.len()
    } else if segments && i + 1 < p.len() && p[i] == '*' && p[i + 1] == '*' {
        ||| matches_from(p, s, i + 2, j, segments)
        ||| (i + 2 < p.len() && p[i + 2] == '/' && (j == 0 || s[j - 1] == '/') && matches_from(
            p,
            s,
            i + 3,
            j,
            segments,
        ))
        ||| (j < s.len() && matches_from(p, s, i, j + 1, segments))
    } else if p[i] == '*' {
        ||| matches_from(p, s, i + 1, j, segments)
        ||| (j < s.len() && s[j] != '/' && matches_from(p, s, i, j + 1, segments))
    } else {
        j < s.len() && s[j] == p[i] && matches_from(p, s, i + 1, j + 1, segments)
    }
}

/// What `simple_glob_match` decides: a single-segment glob, anchored at
/// both ends, in which every `*` stays within one segment; `*` alone
/// matches everything.
pub open spec fn simple_glob(pattern: Seq<char>, path: Seq<char>) -> bool {
    pattern == seq!['*'] || matches_from(pattern, path, 0, 0, false)
}

/// What `glob_match` decides: `*` alone matches everything; otherwise the
/// whole path must match, `*` within a segment and `**` across segments.
pub open spec fn glob(pattern: Seq<char>, path: Seq<char>) -> bool {
    pattern == seq!['*'] || matches_from(pattern, path, 0, 0, true)
}

/// The pattern holds `**`.
pub open spec fn has_double_star(p: Seq<char>) -> bool {
    exists|i: int| 0 <= i && i + 1 < p.len() && p[i] == '*' && #[trigger] p[i + 1] == '*'
}

/// Decides `matches_from(p, s, 0, 0, segments)` by filling the table of
/// `matches_from(p, s, i, j, segments)` from the ends of both sequences.
fn match_table(p: &Vec<char>, s: &Vec<char>, segments: bool) -> (r: bool)
    ensures
        r == matches_from(p@, s@, 0, 0, segments),
{
    let n = p.len();
    let m = s.len();
    // rows[t] and ends[t] hold row i = n - t: rows[t][j] for j < m, ends[t] for j == m.
    let mut rows: Vec<Vec<bool>> = Vec::new();
    let mut ends: Vec<bool> = Vec::new();
    let mut base: Vec<bool> = Vec::new();
    while base.len() < m
        invariant
            n == p.len(),
            m == s.len(),
            base.len() <= m,
            forall|jj: int| 0 <= jj < base.len() ==> base@[jj] == matches_from(p@, s@, n as int, jj, segments),
        decreases m - base.len(),
    {
        base.push(false);
    }
    rows.push(base);
    ends.push(true);
    let mut i = n;
    while i > 0
        invariant
            n == p.len(),
            m == s.len(),
            i <= n,
            rows.len() == n - i + 1,
            ends.len() == n - i + 1,
            forall|t: int| 0 <= t < rows.len() ==> (#[trigger] rows@[t]).len() == m,
            forall|t: int, jj: int|
                #![trigger rows@[t]@[jj]]
                0 <= t < rows.len() && 0 <= jj < m ==> rows@[t]@[jj] == matches_from(
                    p@,
                    s@,
                    n - t,
                    jj,
                    segments,
                ),
            forall|t: int|
                0 <= t < ends.len() ==> #[trigger] ends@[t] == matches_from(p@, s@, n - t, m as int, segments),
        decreases i,
    {
        i -= 1;
        let dbl = segments && i + 1 < n && p[i] == '*' && p[i + 1] == '*';
        let star = p[i] == '*';
        let slash_after = n - i > 2 && p[i + 2] == '/';
        let t1 = n - i - 1;
        let end_boundary = m == 0 || s[m - 1] == '/';
        let end_i = if dbl {
            ends[n - i - 2] || (slash_after && end_boundary && ends[n - i - 3])
        } else if star {
            ends[t1]
        } else {
            false
        };
        assert(end_i == matches_from(p@, s@, i as int, m as int, segments));
        let mut row: Vec<bool> = Vec::new();
        while row.len() < m
            invariant
                row.len() <= m,
            decreases m - row.len(),
        {
            row.push(false);
        }
        let mut j = m;
        while j > 0
            invariant
                n == p.len(),
                m == s.len(),
                i < n,
                rows.len() == n - i,
                ends.len() == n - i,
                t1 == n - i - 1,
                dbl == (segments && i + 1 < n && p@[i as int] == '*' && p@[i + 1] == '*'),
                star == (p@[i as int] == '*'),
                slash_after == (i + 2 < n && p@[i + 2] == '/'),
                end_i == matches_from(p@, s@, i as int, m as int, segments),
                row.len() == m,
                j <= m,
                forall|t: int| 0 <= t < rows.len() ==> (#[trigger] rows@[t]).len() == m,
                forall|t: int, jj: int|
                    #![trigger rows@[t]@[jj]]
                    0 <= t < rows.len() && 0 <= jj < m ==> rows@[t]@[jj] == matches_from(
                        p@,
                        s@,
                        n - t,
                        jj,
                        segments,
                    ),
                forall|t: int|
                    0 <= t < ends.len() ==> #[trigger] ends@[t] == matches_from(p@, s@, n - t, m as int, segments),
                forall|jj: int| j <= jj < m ==> row@[jj] == matches_from(p@, s@, i as int, jj, segments),
            decreases j,
        {
            j -= 1;
            let next = if j + 1 < m {
                row[j + 1]
            } else {
                end_i
            };
            let boundary = j == 0 || s[j - 1] == '/';
            let v = if dbl {
                rows[n - i - 2][j] || (slash_after && boundary && rows[n - i - 3][j]) || next
            } else if star {
                rows[t1][j] || (s[j] != '/' && next)
            } else {
                s[j] == p[i] && (if j + 1 < m {
                    rows[t1][j + 1]
                } else {
                    ends[t1]
                })
            };
            assert(v == matches_from(p@, s@, i as int, j as int, segments));
            row.set(j, v);
        }
        rows.push(row);
        ends.push(end_i);
    }
    if m > 0 {
        rows[n][0]
    } else {
        ends[n]
    }
}

/// Whether `pc` is the pattern `*` alone.
fn is_lone_star(pc: &Vec<char>) -> (r: bool)
    ensures
        r == (pc@ == seq!['*']),
{
    if pc.len() == 1 && pc[0] == '*' {
        assert(pc@ =~= seq!['*']);
        true
    } else {
        false
    }
}

/// Simple single-segment glob matching: the whole path must match, and
/// each `*` matches a run of characters that holds no `/`.
pub fn simple_glob_match(pattern: &str, path: &str) -> (r: bool)
    ensures
        r == simple_glob(pattern@, path@),
{
    let pc = chars_of(pattern);
    if is_lone_star(&pc) {
        return true;
    }
    let sc = chars_of(path);
    match_table(&pc, &sc, false)
}

/// Glob matching with `*` (within a segment) and `**` (across segments).
pub fn glob_match(pattern: &str, path: &str) -> (r: bool)
    ensures
        r == glob(pattern@, path@),
{
    let pc = chars_of(pattern);
    if is_lone_star(&pc) {
        return true;
    }
    let sc = chars_of(path);
    match_table(&pc, &sc, true)
}

proof fn lemma_double_star_all(s: Seq<char>, j: int)
    requires
        0 <= j <= s.len(),
    ensures
        matches_from(seq!['*', '*'], s, 0, j, true),
    decreases s.len() - j,
{
    let p = seq!['*', '*'];
    assert(p[0] == '*' && p[1] == '*' && p.len() == 2);
    if j < s.len() {
        lemma_double_star_all(s, j + 1);
    } else {
        assert(matches_from(p, s, 2, j, true));
    }
}

/// `*` and `**` match every path.
pub proof fn law_star_matches_all(path: Seq<char>)
    ensures
        glob(seq!['*'], path),
        glob(seq!['*', '*'], path),
        simple_glob(seq!['*'], path),
{
    lemma_double_star_all(path, 0);
}

proof fn lemma_plain_from(p: Seq<char>, s: Seq<char>, i: int, j: int, segments: bool)
    requires
        !p.contains('*'),
        0 <= i <= p.len(),
        0 <= j <= s.len(),
    ensures
        matches_from(p, s, i, j, segments) == (p.subrange(i, p.len() as int) == s.subrange(
            j,
            s.len() as int,
        )),
    decreases p.len() - i,
{
    let a = p.subrange(i, p.len() as int);
    let b = s.subrange(j, s.len() as int);
    if i == p.len() {
        if j < s.len() {
            assert(b.len() > 0);
        }
        assert(a =~= Seq::<char>::empty());
        if j == s.len() {
            assert(b =~= Seq::<char>::empty());
        }
    } else {
        assert(p[i] != '*') by {
            if p[i] == '*' {
                assert(p.contains('*'));
            }
        }
        if j < s.len() {
            lemma_plain_from(p, s, i + 1, j + 1, segments);
            let a1 = p.subrange(i + 1, p.len() as int);
            let b1 = s.subrange(j + 1, s.len() as int);
            if a == b {
                assert(a[0] == b[0]);
                assert(a1 =~= a.drop_first());
                assert(b1 =~= b.drop_first());
            }
            if s[j] == p[i] && a1 == b1 {
                assert forall|k: int| 0 <= k < a.len() implies a[k] == b[k] by {
                    if k > 0 {
                        assert(a[k] == a1[k - 1]);
                        assert(b[k] == b1[k - 1]);
                    }
                }
                assert(a =~= b);
            }
        } else {
            assert(a.len() > 0 && b.len() == 0);
        }
    }
}

/// A pattern without `*` matches exactly the path equal to it.
pub proof fn law_plain_pattern_is_equality(pattern: Seq<char>, path: Seq<char>)
    requires
        !pattern.contains('*'),
    ensures
        glob(pattern, path) == (pattern == path),
        simple_glob(pattern, path) == (pattern == path),
{
    lemma_plain_from(pattern, path, 0, 0, true);
    lemma_plain_from(pattern, path, 0, 0, false);
    assert(pattern.subrange(0, pattern.len() as int) =~= pattern);
    assert(path.subrange(0, path.len() as int) =~= path);
    assert(pattern != seq!['*']) by {
        if pattern == seq!['*'] {
            assert(pattern[0] == '*');
        }
    }
}

proof fn lemma_no_double_star_from(p: Seq<char>, s: Seq<char>, i: int, j: int)
    requires
        !has_double_star(p),
    ensures
        matches_from(p, s, i, j, true) == matches_from(p, s, i, j, false),
    decreases p.len() - i, s.len() - j,
{
    if i < 0 || j < 0 || i >= p.len() {
    } else {
        if i + 1 < p.len() && p[i] == '*' && p[i + 1] == '*' {
            assert(has_double_star(p));
        }
        if p[i] == '*' {
            lemma_no_double_star_from(p, s, i + 1, j);
            if j < s.len() {
                lemma_no_double_star_from(p, s, i, j + 1);
            }
        } else if j < s.len() {
            lemma_no_double_star_from(p, s, i + 1, j + 1);
        }
    }
}

/// A pattern without `**` is decided as a simple glob.
pub proof fn law_no_double_star_is_simple_glob(pattern: Seq<char>, path: Seq<char>)
    requires
        !has_double_star(pattern),
    ensures
        glob(pattern, path) == simple_glob(pattern, path),
{
    lemma_no_double_star_from(pattern, path, 0, 0);
}

} // verus!
