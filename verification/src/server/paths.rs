//! Unix path arithmetic on text, and the decision of which paths a request
//! may reach inside the workspace.
//!
//! Turning a path into its canonical form reads the filesystem; that is the
//! caller's part. This module computes which paths to canonicalize
//! ([`ServerConfig::request_path`], [`ServerConfig::authorized_root_paths`])
//! and decides on the canonical forms ([`ServerConfig::resolve_path`]).

use vstd::prelude::*;
use crate::server::config::ServerConfig;
use crate::server::errors::ServerError;
use crate::strutil::{
    char_views, lemma_split_on_nonempty, same_chars, skip_leading, split_on, string_of, trim_start_char,
};
use crate::unicode::{chars_of, push_char};

verus! {

/// `base.join(rel)` on Unix: an absolute `rel` replaces `base`; otherwise
/// `rel` follows `base`, with a `/` between them unless `base` is empty or
/// already ends with one.
pub open spec fn join_path(base: Seq<char>, rel: Seq<char>) -> Seq<char> {
    if rel.len() > 0 && rel[0] == '/' {
        rel
    } else if base.len() == 0 || base.last() == '/' {
        base + rel
    } else {
        base + seq!['/'] + rel
    }
}

/// The named components among `/`-separated pieces: empty pieces go, and so
/// does `.` anywhere but at the very start.
pub open spec fn normal_segments(segs: Seq<Seq<char>>) -> Seq<Seq<char>>
    decreases segs.len(),
{
    if segs.len() == 0 {
        Seq::empty()
    } else {
        let prev = normal_segments(segs.drop_last());
        let seg = segs.last();
        if seg.len() == 0 || (seg == seq!['.'] && segs.len() > 1) {
            prev
        } else {
            prev.push(seg)
        }
    }
}

/// The components of a Unix path, as `Path::components` yields them: the
/// root (written `/`) when the path starts with one, then its named pieces.
pub open spec fn path_components(s: Seq<char>) -> Seq<Seq<char>> {
    let root: Seq<Seq<char>> = if s.len() > 0 && s[0] == '/' {
        seq![seq!['/']]
    } else {
        Seq::empty()
    };
    root + normal_segments(split_on(s, '/'))
}

/// `Path::starts_with`: the components of `base` begin those of `p`.
pub open spec fn path_starts_with(p: Seq<char>, base: Seq<char>) -> bool {
    let a = path_components(base);
    let b = path_components(p);
    a.len() <= b.len() && b.take(a.len() as int) == a
}

/// Some authorized root, as canonicalized, contains `p`.
pub open spec fn within_some_root(p: Seq<char>, roots: Seq<Option<String>>) -> bool {
    exists|i: int| 0 <= i < roots.len() && #[trigger] roots[i] is Some && path_starts_with(
        p,
        roots[i]->0@,
    )
}

/// `base.join(rel)` as text.
pub fn join_path_text(base: &str, rel: &Vec<char>) -> (r: String)
    ensures
        r@ == join_path(base@, rel@),
{
    let mut out = String::new();
    if rel.len() > 0 && rel[0] == '/' {
        return string_of(rel);
    }
    let b = chars_of(base);
    out.append(base);
    if b.len() > 0 && b[b.len() - 1] != '/' {
        push_char(&mut out, '/');
    }
    let tail = string_of(rel);
    out.append(tail.as_str());
    out
}

/// The components of the path `s`.
pub fn components(s: &Vec<char>) -> (r: Vec<Vec<char>>)
    ensures
        char_views(r@) == path_components(s@),
{
    let n = s.len();
    let mut comps: Vec<Vec<char>> = Vec::new();
    let ghost root: Seq<Seq<char>> = if s@.len() > 0 && s@[0] == '/' {
        seq![seq!['/']]
    } else {
        Seq::empty()
    };
    if n > 0 && s[0] == '/' {
        let mut r: Vec<char> = Vec::new();
        r.push('/');
        comps.push(r);
    }
    let mut seg: Vec<char> = Vec::new();
    let mut nseg: usize = 0;
    let mut i: usize = 0;
    proof {
        assert(s@.take(0) =~= Seq::<char>::empty());
        assert(char_views(comps@) =~= root + normal_segments(Seq::<Seq<char>>::empty()));
    }
    while i < n
        invariant
            n == s.len(),
            i <= n,
            root == (if s@.len() > 0 && s@[0] == '/' {
                seq![seq!['/']]
            } else {
                Seq::<Seq<char>>::empty()
            }),
            split_on(s@.take(i as int), '/').len() == nseg + 1,
            char_views(comps@) == root + normal_segments(
                split_on(s@.take(i as int), '/').drop_last(),
            ),
            seg@ == split_on(s@.take(i as int), '/').last(),
            nseg <= i,
        decreases n - i,
    {
        let c = s[i];
        let ghost p = split_on(s@.take(i as int), '/');
        proof {
            assert(s@.take(i + 1).drop_last() =~= s@.take(i as int));
            assert(s@.take(i + 1).last() == c);
            lemma_split_on_nonempty(s@.take(i as int), '/');
        }
        if c == '/' {
            proof {
                assert(split_on(s@.take(i + 1), '/') == p.push(Seq::<char>::empty()));
                assert(p.push(Seq::<char>::empty()).drop_last() =~= p);
                assert(p =~= p.drop_last().push(p.last()));
            }
            let dot = seg.len() == 1 && seg[0] == '.';
            proof {
                if seg@.len() == 1 {
                    assert(dot == (seg@ =~= seq!['.']));
                } else {
                    assert(seg@ != seq!['.']);
                }
            }
            if !(seg.len() == 0 || (dot && nseg > 0)) {
                let ghost before = char_views(comps@);
                let done = seg;
                comps.push(done);
                proof {
                    assert(char_views(comps@) =~= before.push(p.last()));
                    assert(root + normal_segments(p.drop_last()).push(p.last()) =~= (root
                        + normal_segments(p.drop_last())).push(p.last()));
                }
            }
            seg = Vec::new();
            nseg = nseg + 1;
            proof {
                assert(seg@ =~= split_on(s@.take(i + 1), '/').last());
            }
        } else {
            proof {
                assert(split_on(s@.take(i + 1), '/') == p.update(p.len() - 1, p.last().push(c)));
                assert(p.update(p.len() - 1, p.last().push(c)).drop_last() =~= p.drop_last());
            }
            seg.push(c);
        }
        i = i + 1;
    }
    let ghost p = split_on(s@, '/');
    proof {
        assert(s@.take(n as int) =~= s@);
        lemma_split_on_nonempty(s@, '/');
        assert(p =~= p.drop_last().push(p.last()));
    }
    let dot = seg.len() == 1 && seg[0] == '.';
    proof {
        if seg@.len() == 1 {
            assert(dot == (seg@ =~= seq!['.']));
        } else {
            assert(seg@ != seq!['.']);
        }
    }
    if !(seg.len() == 0 || (dot && nseg > 0)) {
        let ghost before = char_views(comps@);
        comps.push(seg);
        proof {
            assert(char_views(comps@) =~= before.push(p.last()));
            assert(root + normal_segments(p.drop_last()).push(p.last()) =~= (root + normal_segments(
                p.drop_last(),
            )).push(p.last()));
        }
    }
    comps
}

/// Whether the path `p` starts with the path `base`, component by component.
pub fn starts_with_path(p: &Vec<char>, base: &Vec<char>) -> (r: bool)
    ensures
        r == path_starts_with(p@, base@),
{
    let a = components(base);
    let b = components(p);
    if a.len() > b.len() {
        return false;
    }
    let mut i: usize = 0;
    while i < a.len()
        invariant
            a.len() <= b.len(),
            i <= a.len(),
            char_views(a@) == path_components(base@),
            char_views(b@) == path_components(p@),
            forall|k: int| 0 <= k < i ==> a@[k]@ == b@[k]@,
        decreases a.len() - i,
    {
        if !same_chars(&a[i], &b[i]) {
            proof {
                assert(char_views(a@)[i as int] == a@[i as int]@);
                assert(char_views(b@).take(a.len() as int)[i as int] == b@[i as int]@);
            }
            return false;
        }
        i += 1;
    }
    proof {
        assert(char_views(b@).take(a.len() as int) =~= char_views(a@));
    }
    true
}

impl ServerConfig {
    /// The path a request names: the workspace root joined with the request
    /// path stripped of its leading `/`s.
    pub fn request_path(&self, relative_path: &str) -> (r: String)
        ensures
            r@ == join_path(self.workspace_root@, trim_start_char(relative_path@, '/')),
    {
        let cs = chars_of(relative_path);
        let a = skip_leading(&cs, '/');
        let mut rest: Vec<char> = Vec::new();
        let mut i = a;
        while i < cs.len()
            invariant
                a <= i <= cs.len(),
                rest@ == cs@.subrange(a as int, i as int),
            decreases cs.len() - i,
        {
            rest.push(cs[i]);
            i += 1;
            proof {
                assert(rest@ =~= cs@.subrange(a as int, i as int));
            }
        }
        assert(rest@ =~= cs@.skip(a as int));
        join_path_text(self.workspace_root.as_str(), &rest)
    }

    /// The authorized roots joined onto the workspace root, in order.
    pub fn authorized_root_paths(&self) -> (r: Vec<String>)
        ensures
            r@.len() == self.authorized_roots@.len(),
            forall|i: int|
                0 <= i < r@.len() ==> #[trigger] r@[i]@ == join_path(
                    self.workspace_root@,
                    self.authorized_roots@[i]@,
                ),
    {
        let mut r: Vec<String> = Vec::new();
        let mut i: usize = 0;
        while i < self.authorized_roots.len()
            invariant
                i <= self.authorized_roots.len(),
                r@.len() == i,
                forall|k: int|
                    0 <= k < i ==> #[trigger] r@[k]@ == join_path(
                        self.workspace_root@,
                        self.authorized_roots@[k]@,
                    ),
            decreases self.authorized_roots.len() - i,
        {
            let rel = chars_of(self.authorized_roots[i].as_str());
            let j = join_path_text(self.workspace_root.as_str(), &rel);
            r.push(j);
            i += 1;
        }
        r
    }

    /// Decide whether a request path may be used, given the canonical form
    /// of [`Self::request_path`] (`None` when it does not exist), the
    /// canonical form of the workspace root (or why it has none), and the
    /// canonical forms of [`Self::authorized_root_paths`], in order. The path
    /// must lie under the workspace root and under some authorized root;
    /// the canonical path is returned.
    pub fn resolve_path(
        &self,
        relative_path: &str,
        canonical: Option<String>,
        root_canonical: Result<String, String>,
        roots_canonical: Vec<Option<String>>,
    ) -> (r: Result<String, ServerError>)
        ensures
            canonical is None ==> (r matches Err(ServerError::FileNotFound(m)) && m@
                == "path not found: "@ + relative_path@),
            canonical is Some && root_canonical is Err ==> (r matches Err(
                ServerError::Internal(m),
            ) && m@ == "cannot canonicalize workspace root: "@ + root_canonical->Err_0@),
            canonical is Some && root_canonical is Ok && !path_starts_with(
                canonical->0@,
                root_canonical->Ok_0@,
            ) ==> (r matches Err(ServerError::PathTraversalDenied(m)) && m@ == "path '"@
                + relative_path@ + "' escapes workspace root"@),
            canonical is Some && root_canonical is Ok && path_starts_with(
                canonical->0@,
                root_canonical->Ok_0@,
            ) && !within_some_root(canonical->0@, roots_canonical@) ==> (r matches Err(
                ServerError::PathTraversalDenied(m),
            ) && m@ == "path '"@ + relative_path@ + "' is outside authorized roots"@),
            r is Ok <==> canonical is Some && root_canonical is Ok && path_starts_with(
                canonical->0@,
                root_canonical->Ok_0@,
            ) && within_some_root(canonical->0@, roots_canonical@),
            r matches Ok(p) ==> p@ == canonical->0@,
            forall|i: int|
                0 <= i < roots_canonical@.len() && canonical is Some && root_canonical is Ok
                    && path_starts_with(canonical->0@, root_canonical->Ok_0@)
                    && #[trigger] roots_canonical@[i] is Some && path_starts_with(
                    canonical->0@,
                    roots_canonical@[i]->0@,
                ) ==> r == Ok::<String, ServerError>(canonical->0),
    {
        let canonical = match canonical {
            Some(c) => c,
            None => {
                let mut m = "path not found: ".to_string();
                m.append(relative_path);
                return Err(ServerError::FileNotFound(m));
            },
        };
        let root = match root_canonical {
            Ok(rc) => rc,
            Err(e) => {
                let mut m = "cannot canonicalize workspace root: ".to_string();
                m.append(e.as_str());
                return Err(ServerError::Internal(m));
            },
        };
        let cc = chars_of(canonical.as_str());
        let rc = chars_of(root.as_str());
        if !starts_with_path(&cc, &rc) {
            let mut m = "path '".to_string();
            m.append(relative_path);
            m.append("' escapes workspace root");
            return Err(ServerError::PathTraversalDenied(m));
        }
        let mut i: usize = 0;
        let mut found = false;
        while i < roots_canonical.len() && !found
            invariant
                i <= roots_canonical.len(),
                cc@ == canonical@,
                found ==> within_some_root(canonical@, roots_canonical@),
                !found ==> forall|k: int|
                    0 <= k < i ==> !(#[trigger] roots_canonical@[k] is Some && path_starts_with(
                        canonical@,
                        roots_canonical@[k]->0@,
                    )),
            decreases roots_canonical.len() - i + (if found { 0int } else { 1int }),
        {
            match &roots_canonical[i] {
                Some(x) => {
                    let xc = chars_of(x.as_str());
                    if starts_with_path(&cc, &xc) {
                        found = true;
                        assert(roots_canonical@[i as int] is Some);
                    } else {
                        i += 1;
                    }
                },
                None => {
                    i += 1;
                },
            }
        }
        if !found {
            let mut m = "path '".to_string();
            m.append(relative_path);
            m.append("' is outside authorized roots");
            return Err(ServerError::PathTraversalDenied(m));
        }
        Ok(canonical)
    }
}

/// A path under any listed authorized root, whatever its position, is
/// authorized.
pub proof fn law_any_listed_root_authorizes(p: Seq<char>, roots: Seq<Option<String>>, i: int)
    requires
        0 <= i < roots.len(),
        roots[i] is Some,
        path_starts_with(p, roots[i]->0@),
    ensures
        within_some_root(p, roots),
{
}

/// A path is authorized only by a listed root that contains it.
pub proof fn law_authorized_by_some_listed_root(p: Seq<char>, roots: Seq<Option<String>>)
    requires
        within_some_root(p, roots),
    ensures
        exists|i: int|
            0 <= i < roots.len() && #[trigger] roots[i] is Some && path_starts_with(p, roots[i]->0@),
{
}

/// Adding an authorized root keeps every path authorized that was, and
/// authorizes the paths under the added root.
pub proof fn law_adding_a_root(p: Seq<char>, roots: Seq<Option<String>>, extra: Option<String>)
    ensures
        within_some_root(p, roots) ==> within_some_root(p, roots.push(extra)),
        extra is Some && path_starts_with(p, extra->0@) ==> within_some_root(p, roots.push(extra)),
        !within_some_root(p, roots) && within_some_root(p, roots.push(extra)) ==> extra is Some
            && path_starts_with(p, extra->0@),
{
    let q = roots.push(extra);
    if within_some_root(p, roots) {
        let i = choose|i: int| 0 <= i < roots.len() && #[trigger] roots[i] is Some && path_starts_with(p, roots[i]->0@);
        assert(q[i] == roots[i]);
    }
    if extra is Some && path_starts_with(p, extra->0@) {
        assert(q[roots.len() as int] == extra);
    }
    if !within_some_root(p, roots) && within_some_root(p, q) {
        let i = choose|i: int| 0 <= i < q.len() && #[trigger] q[i] is Some && path_starts_with(p, q[i]->0@);
        if i < roots.len() {
            assert(q[i] == roots[i]);
            assert(roots[i] is Some);
        }
    }
}

/// Which paths the authorized roots admit does not depend on their order.
pub proof fn law_root_order_irrelevant(p: Seq<char>, a: Seq<Option<String>>, b: Seq<Option<String>>)
    ensures
        within_some_root(p, a + b) == within_some_root(p, b + a),
{
    let ab = a + b;
    let ba = b + a;
    if within_some_root(p, ab) {
        let i = choose|i: int| 0 <= i < ab.len() && #[trigger] ab[i] is Some && path_starts_with(p, ab[i]->0@);
        let j = if i < a.len() { i + b.len() } else { i - a.len() };
        assert(ba[j] == ab[i]);
    }
    if within_some_root(p, ba) {
        let i = choose|i: int| 0 <= i < ba.len() && #[trigger] ba[i] is Some && path_starts_with(p, ba[i]->0@);
        let j = if i < b.len() { i + a.len() } else { i - b.len() };
        assert(ab[j] == ba[i]);
    }
}

} // verus!
