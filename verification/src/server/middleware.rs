//! The decisions of the HTTP middleware: whether a request is authorized,
//! and which client a forwarded request comes from.

use vstd::prelude::*;
use crate::server::errors::ServerError;
use crate::strutil::{lemma_split_first, split_on, trim_bounds, trim_spec, string_of, same_chars};
use crate::unicode::chars_of;

verus! {

/// The scheme prefix of a bearer `Authorization` value.
pub open spec fn bearer_prefix() -> Seq<char> {
    seq!['B', 'e', 'a', 'r', 'e', 'r', ' ']
}

/// The token an `Authorization` value carries: the value without its
/// leading `Bearer `, or the whole value when it has no such prefix.
pub open spec fn bearer_token(h: Seq<char>) -> Seq<char> {
    if h.len() >= 7 && h.take(7) == bearer_prefix() {
        h.skip(7)
    } else {
        h
    }
}

/// A token sent with the `Bearer ` scheme is read as the bare token.
pub proof fn law_bearer_scheme_stripped(token: Seq<char>)
    ensures
        bearer_token(bearer_prefix() + token) == token,
{
    assert((bearer_prefix() + token).take(7) =~= bearer_prefix());
    assert((bearer_prefix() + token).skip(7) =~= token);
}

/// The chars of `h` that [`bearer_token`] keeps.
fn strip_bearer(h: &Vec<char>) -> (r: Vec<char>)
    ensures
        r@ == bearer_token(h@),
{
    let prefix: Vec<char> = vec!['B', 'e', 'a', 'r', 'e', 'r', ' '];
    assert(prefix@ =~= bearer_prefix());
    let mut start: usize = 0;
    if h.len() >= 7 {
        let mut i: usize = 0;
        let mut same = true;
        while i < 7
            invariant
                h.len() >= 7,
                prefix@ == bearer_prefix(),
                i <= 7,
                same <==> forall|k: int| 0 <= k < i ==> h@[k] == prefix@[k],
            decreases 7 - i,
        {
            if h[i] != prefix[i] {
                same = false;
            }
            i += 1;
        }
        if same {
            assert(h@.take(7) =~= bearer_prefix());
            start = 7;
        } else {
            assert(h@.take(7) != bearer_prefix()) by {
                let k = choose|k: int| 0 <= k < 7 && h@[k] != prefix@[k];
                assert(h@.take(7)[k] != bearer_prefix()[k]);
            }
        }
    }
    let mut r: Vec<char> = Vec::new();
    let mut j = start;
    while j < h.len()
        invariant
            start <= j <= h.len(),
            r@ == h@.subrange(start as int, j as int),
        decreases h.len() - j,
    {
        r.push(h[j]);
        j += 1;
        assert(r@ =~= h@.subrange(start as int, j as int));
    }
    assert(r@ =~= h@.skip(start as int));
    r
}

/// Authentication check.
///
/// With no token configured every request passes. Otherwise the request
/// must carry an `Authorization` value whose token (the value without a
/// leading `Bearer `) equals the configured token.
pub fn check_authorization(expected: &Option<String>, header: Option<&str>) -> (r: Result<
    (),
    ServerError,
>)
    ensures
        expected is None ==> r is Ok,
        expected matches Some(t) ==> match header {
            None => r matches Err(ServerError::Unauthorized(m)) && m@
                == "missing authorization header"@,
            Some(h) => (r is Ok <==> bearer_token(h@) == t@) && (r matches Err(e) ==> e matches ServerError::Unauthorized(m)
                && m@ == "invalid token"@),
        },
{
    let token = match expected {
        Some(t) => t,
        None => return Ok(()),
    };
    match header {
        None => Err(ServerError::Unauthorized("missing authorization header".to_string())),
        Some(h) => {
            let given = strip_bearer(&chars_of(h));
            let want = chars_of(token.as_str());
            if same_chars(&given, &want) {
                Ok(())
            } else {
                Err(ServerError::Unauthorized("invalid token".to_string()))
            }
        },
    }
}

/// The client a forwarded request names: the first entry of an
/// `X-Forwarded-For` value, trimmed of whitespace.
pub fn forwarded_client(header: &str) -> (r: String)
    ensures
        r@ == trim_spec(split_on(header@, ',')[0]),
{
    let cs = chars_of(header);
    let mut k: usize = 0;
    while k < cs.len() && cs[k] != ','
        invariant
            k <= cs.len(),
            cs@ == header@,
            forall|i: int| 0 <= i < k ==> cs@[i] != ',',
        decreases cs.len() - k,
    {
        k += 1;
    }
    proof {
        lemma_split_first(header@, ',', k as int);
    }
    let mut first: Vec<char> = Vec::new();
    let mut i: usize = 0;
    while i < k
        invariant
            k <= cs.len(),
            i <= k,
            first@ == cs@.take(i as int),
        decreases k - i,
    {
        first.push(cs[i]);
        i += 1;
        assert(first@ =~= cs@.take(i as int));
    }
    let (a, b) = trim_bounds(&first);
    let mut kept: Vec<char> = Vec::new();
    let mut j = a;
    while j < b
        invariant
            a <= j <= b <= first.len(),
            kept@ == first@.subrange(a as int, j as int),
        decreases b - j,
    {
        kept.push(first[j]);
        j += 1;
        assert(kept@ =~= first@.subrange(a as int, j as int));
    }
    string_of(&kept)
}

} // verus!
