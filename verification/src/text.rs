//! Text chunking, truncation and summaries, for splitting long messages
//! across platform size limits. Sizes are UTF-8 byte counts.

use vstd::prelude::*;
use crate::strutil::{decimal, push_decimal};
use crate::unicode::{
    byte_len, char_utf8_len, char_width, chars_of, lemma_utf8_len_concat, lemma_utf8_len_ge_len, lemma_utf8_len_push,
    lemma_utf8_len_single, lemma_utf8_len_take_mono, push_char, utf8_len,
};

verus! {

/// Maximum safe chunk size for most messaging platforms.
pub const DEFAULT_CHUNK_SIZE: usize = 4000;

/// The pieces of `s` between single spaces, as `s.split(' ')` yields them.
pub open spec fn split_spaces(s: Seq<char>) -> Seq<Seq<char>>
    decreases s.len(),
{
    if s.len() == 0 {
        seq![Seq::<char>::empty()]
    } else {
        let p = split_spaces(s.drop_last());
        if s.last() == ' ' {
            p.push(Seq::<char>::empty())
        } else {
            p.update(p.len() - 1, p.last().push(s.last()))
        }
    }
}

/// One step of greedy packing: add word `w` to the pending chunk `cur`,
/// closing `cur` first when `cur`, a space and `w` would exceed `max` bytes.
/// An empty pending chunk always takes the word, however long.
pub open spec fn pack_step(
    st: (Seq<Seq<char>>, Seq<char>),
    w: Seq<char>,
    max: nat,
) -> (Seq<Seq<char>>, Seq<char>) {
    if st.1.len() == 0 {
        (st.0, st.1 + w)
    } else if utf8_len(st.1) + 1 + utf8_len(w) > max {
        (st.0.push(st.1), w)
    } else {
        (st.0, st.1.push(' ') + w)
    }
}

/// Greedy packing of `ws`, in order: the closed chunks and the pending one.
pub open spec fn pack_words(ws: Seq<Seq<char>>, max: nat) -> (Seq<Seq<char>>, Seq<char>)
    decreases ws.len(),
{
    if ws.len() == 0 {
        (Seq::empty(), Seq::empty())
    } else {
        pack_step(pack_words(ws.drop_last(), max), ws.last(), max)
    }
}

/// The chunks of `text` for a limit of `max` bytes: the empty text gives one
/// empty chunk, a text that fits gives itself, any other text is packed
/// word by word and a non-empty pending chunk closes the list.
pub open spec fn chunks_of(text: Seq<char>, max: nat) -> Seq<Seq<char>> {
    if text.len() == 0 {
        seq![Seq::<char>::empty()]
    } else if utf8_len(text) <= max {
        seq![text]
    } else {
        let st = pack_words(split_spaces(text), max);
        if st.1.len() > 0 {
            st.0.push(st.1)
        } else {
            st.0
        }
    }
}

/// The views of a list of strings.
pub open spec fn views(v: Seq<String>) -> Seq<Seq<char>> {
    v.map_values(|s: String| s@)
}

pub proof fn lemma_split_spaces_nonempty(s: Seq<char>)
    ensures
        split_spaces(s).len() >= 1,
    decreases s.len(),
{
    if s.len() > 0 {
        lemma_split_spaces_nonempty(s.drop_last());
    }
}

proof fn lemma_utf8_len_le_4x(s: Seq<char>)
    ensures
        utf8_len(s) <= 4 * s.len(),
    decreases s.len(),
{
    if s.len() > 0 {
        lemma_utf8_len_le_4x(s.drop_last());
        assert(s =~= s.drop_last().push(s.last()));
        lemma_utf8_len_push(s.drop_last(), s.last());
        lemma_utf8_len_single(s.last());
    }
}

/// Split text into chunks respecting word boundaries.
///
/// Never breaks a word in half. If a single word exceeds `max_bytes`,
/// it is placed in its own chunk unsplit.
pub fn chunk_text(text: &str, max_bytes: usize) -> (r: Vec<String>)
    ensures
        views(r@) == chunks_of(text@, max_bytes as nat),
{
    if text.is_empty() {
        let r = vec![String::new()];
        assert(views(r@) =~= chunks_of(text@, max_bytes as nat));
        return r;
    }
    if byte_len(text) <= max_bytes {
        let whole = text.to_owned();
        let r = vec![whole];
        assert(views(r@) =~= chunks_of(text@, max_bytes as nat));
        return r;
    }
    let cs = chars_of(text);
    let n = cs.len();
    let ghost s = cs@;
    let ghost max = max_bytes as nat;
    let mut chunks: Vec<String> = Vec::new();
    let mut cur = String::new();
    let mut cur_bytes: u128 = 0;
    let mut word = String::new();
    let mut word_bytes: u128 = 0;
    let mut i: usize = 0;
    proof {
        assert(s.take(0) =~= Seq::<char>::empty());
        assert(views(chunks@) =~= Seq::<Seq<char>>::empty());
    }
    while i < n
        invariant
            n == cs.len(),
            s == cs@,
            max == max_bytes,
            i <= n,
            split_spaces(s.take(i as int)).len() >= 1,
            (views(chunks@), cur@) == pack_words(split_spaces(s.take(i as int)).drop_last(), max),
            word@ == split_spaces(s.take(i as int)).last(),
            cur_bytes == utf8_len(cur@),
            word_bytes == utf8_len(word@),
            cur_bytes + word_bytes <= 4 * i,
        decreases n - i,
    {
        let c = cs[i];
        let ghost p = split_spaces(s.take(i as int));
        proof {
            assert(s.take(i + 1).drop_last() =~= s.take(i as int));
            assert(s.take(i + 1).last() == c);
            lemma_split_spaces_nonempty(s.take(i + 1));
        }
        if c == ' ' {
            let ghost st = pack_words(p.drop_last(), max);
            proof {
                assert(split_spaces(s.take(i + 1)) == p.push(Seq::<char>::empty()));
                assert(p.push(Seq::<char>::empty()).drop_last() =~= p);
                assert(p =~= p.drop_last().push(p.last()));
                assert(pack_words(p, max) == pack_step(st, p.last(), max));
            }
            if cur_bytes == 0 {
                proof {
                    lemma_utf8_len_ge_len(cur@);
                }
                cur.append(word.as_str());
                cur_bytes = word_bytes;
            } else if cur_bytes + 1 + word_bytes > max_bytes as u128 {
                proof {
                    lemma_utf8_len_ge_len(cur@);
                }
                let full = cur;
                chunks.push(full);
                cur = word;
                cur_bytes = word_bytes;
                proof {
                    assert(views(chunks@) =~= st.0.push(st.1));
                }
            } else {
                proof {
                    lemma_utf8_len_ge_len(cur@);
                    lemma_utf8_len_push(cur@, ' ');
                    lemma_utf8_len_single(' ');
                    lemma_utf8_len_concat(cur@.push(' '), word@);
                }
                push_char(&mut cur, ' ');
                cur.append(word.as_str());
                cur_bytes = cur_bytes + 1 + word_bytes;
            }
            word = String::new();
            word_bytes = 0;
            proof {
                assert(word@ =~= split_spaces(s.take(i + 1)).last());
            }
        } else {
            proof {
                assert(split_spaces(s.take(i + 1)) == p.update(p.len() - 1, p.last().push(c)));
                assert(p.update(p.len() - 1, p.last().push(c)).drop_last() =~= p.drop_last());
                lemma_utf8_len_push(word@, c);
            }
            let w = char_width(c);
            push_char(&mut word, c);
            word_bytes = word_bytes + w as u128;
        }
        i = i + 1;
    }
    let ghost p = split_spaces(s);
    let ghost st = pack_words(p.drop_last(), max);
    proof {
        assert(s.take(n as int) =~= s);
        assert(p =~= p.drop_last().push(p.last()));
        assert(pack_words(p, max) == pack_step(st, p.last(), max));
    }
    if cur_bytes == 0 {
        proof {
            lemma_utf8_len_ge_len(cur@);
        }
        cur.append(word.as_str());
    } else if cur_bytes + 1 + word_bytes > max_bytes as u128 {
        proof {
            lemma_utf8_len_ge_len(cur@);
        }
        let full = cur;
        chunks.push(full);
        cur = word;
        proof {
            assert(views(chunks@) =~= st.0.push(st.1));
        }
    } else {
        proof {
            lemma_utf8_len_ge_len(cur@);
        }
        push_char(&mut cur, ' ');
        cur.append(word.as_str());
    }
    if !cur.as_str().is_empty() {
        let ghost before = views(chunks@);
        chunks.push(cur);
        proof {
            assert(views(chunks@) =~= before.push(pack_words(p, max).1));
        }
    }
    chunks
}

/// The number of leading chars of `s` whose encoding fits in `limit` bytes:
/// the longest such prefix.
pub open spec fn fitting_prefix_len(s: Seq<char>, limit: nat) -> nat
    decreases s.len(),
{
    if utf8_len(s) <= limit {
        s.len()
    } else if s.len() == 0 {
        0
    } else {
        fitting_prefix_len(s.drop_last(), limit)
    }
}

/// The fitting prefix is a prefix.
pub proof fn lemma_fitting_prefix_len_bound(s: Seq<char>, limit: nat)
    ensures
        fitting_prefix_len(s, limit) <= s.len(),
    decreases s.len(),
{
    if utf8_len(s) > limit && s.len() > 0 {
        lemma_fitting_prefix_len_bound(s.drop_last(), limit);
    }
}

/// The horizontal ellipsis that marks a truncation.
pub open spec fn ellipsis() -> Seq<char> {
    seq!['\u{2026}']
}

/// What `truncate_text` returns: `text` itself when it fits in `max` bytes,
/// else its longest prefix that fits in `max` bytes less the three of the
/// ellipsis (none when `max` is below three), followed by the ellipsis.
pub open spec fn truncated(text: Seq<char>, max: nat) -> Seq<char> {
    if utf8_len(text) <= max {
        text
    } else {
        let limit: nat = if max >= 3 { (max - 3) as nat } else { 0 };
        text.take(fitting_prefix_len(text, limit) as int) + ellipsis()
    }
}

pub proof fn lemma_fitting_prefix_len(s: Seq<char>, limit: nat, k: int)
    requires
        0 <= k <= s.len(),
        utf8_len(s.take(k)) <= limit,
        k < s.len() ==> utf8_len(s.take(k + 1)) > limit,
    ensures
        fitting_prefix_len(s, limit) == k,
    decreases s.len(),
{
    if k == s.len() {
        assert(s.take(k) =~= s);
    } else {
        lemma_utf8_len_take_mono(s, k + 1, s.len() as int);
        assert(s.take(s.len() as int) =~= s);
        let t = s.drop_last();
        assert(t.take(k) =~= s.take(k));
        if k + 1 < s.len() {
            assert(t.take(k + 1) =~= s.take(k + 1));
        }
        lemma_fitting_prefix_len(t, limit, k);
    }
}

/// Truncate text to at most `max_bytes`, appending an ellipsis indicator
/// if truncation occurred.
pub fn truncate_text(text: &str, max_bytes: usize) -> (r: String)
    ensures
        r@ == truncated(text@, max_bytes as nat),
{
    if byte_len(text) <= max_bytes {
        return text.to_owned();
    }
    let limit: usize = if max_bytes >= 3 { max_bytes - 3 } else { 0 };
    let cs = chars_of(text);
    let n = cs.len();
    let mut out = String::new();
    let mut used: usize = 0;
    let mut k: usize = 0;
    let mut full = false;
    while k < n && !full
        invariant
            n == cs.len(),
            k <= n,
            out@ == cs@.take(k as int),
            used == utf8_len(cs@.take(k as int)),
            used <= limit,
            full ==> k < n && utf8_len(cs@.take(k + 1)) > limit,
        decreases n - k + (if full { 0int } else { 1int }),
    {
        let c = cs[k];
        let w = char_width(c);
        proof {
            assert(cs@.take(k + 1) =~= cs@.take(k as int).push(c));
            lemma_utf8_len_push(cs@.take(k as int), c);
        }
        if w > limit - used {
            full = true;
        } else {
            push_char(&mut out, c);
            used = used + w;
            k = k + 1;
        }
    }
    proof {
        if k == n {
            assert(cs@.take(n as int) =~= cs@);
        }
        lemma_fitting_prefix_len(cs@, limit as nat, k as int);
    }
    push_char(&mut out, '\u{2026}');
    out
}

/// What `format_input_summary` returns: the char count in parentheses,
/// then the first `max` chars, then an ellipsis when chars were left out.
pub open spec fn input_summary(text: Seq<char>, max: nat) -> Seq<char> {
    let shown = if text.len() <= max { text } else { text.take(max as int) };
    let tail = if text.len() <= max { Seq::<char>::empty() } else { ellipsis() };
    "("@ + decimal(text.len()) + " chars) "@ + shown + tail
}

/// Create a short summary of an input message for logging / display.
///
/// Returns the first `max_chars` characters with a length indicator.
pub fn format_input_summary(text: &str, max_chars: usize) -> (r: String)
    ensures
        r@ == input_summary(text@, max_chars as nat),
{
    let cs = chars_of(text);
    let total = cs.len();
    let mut out = "(".to_string();
    push_decimal(&mut out, total as u64);
    out.append(" chars) ");
    let ghost head = out@;
    let shown = if total <= max_chars { total } else { max_chars };
    let mut k: usize = 0;
    while k < shown
        invariant
            shown <= total == cs.len(),
            k <= shown,
            out@ == head + cs@.take(k as int),
        decreases shown - k,
    {
        proof {
            assert(cs@.take(k + 1) =~= cs@.take(k as int).push(cs@[k as int]));
        }
        push_char(&mut out, cs[k]);
        k = k + 1;
    }
    proof {
        if total <= max_chars {
            assert(cs@.take(total as int) =~= cs@);
        }
    }
    if total > max_chars {
        push_char(&mut out, '\u{2026}');
    }
    proof {
        assert(out@ =~= input_summary(text@, max_chars as nat));
    }
    out
}

/// The non-empty words of `ws`, in order.
pub open spec fn nonempty_words(ws: Seq<Seq<char>>) -> Seq<Seq<char>>
    decreases ws.len(),
{
    if ws.len() == 0 {
        Seq::empty()
    } else {
        let kept = nonempty_words(ws.drop_last());
        if ws.last().len() > 0 {
            kept.push(ws.last())
        } else {
            kept
        }
    }
}

/// The words of `s`: its non-empty pieces between spaces.
pub open spec fn words(s: Seq<char>) -> Seq<Seq<char>> {
    nonempty_words(split_spaces(s))
}

/// The words of each chunk of `cs`, in order, one list.
pub open spec fn chunk_words(cs: Seq<Seq<char>>) -> Seq<Seq<char>>
    decreases cs.len(),
{
    if cs.len() == 0 {
        Seq::empty()
    } else {
        chunk_words(cs.drop_last()) + words(cs.last())
    }
}

/// A chunk that fits in `max` bytes, or that is a single word.
pub open spec fn fits_or_one_word(c: Seq<char>, max: nat) -> bool {
    utf8_len(c) <= max || !c.contains(' ')
}

proof fn lemma_nonempty_words_add(a: Seq<Seq<char>>, b: Seq<Seq<char>>)
    ensures
        nonempty_words(a + b) == nonempty_words(a) + nonempty_words(b),
    decreases b.len(),
{
    if b.len() == 0 {
        assert(a + b =~= a);
        assert(nonempty_words(a) + nonempty_words(b) =~= nonempty_words(a));
    } else {
        assert((a + b).drop_last() =~= a + b.drop_last());
        assert((a + b).last() == b.last());
        lemma_nonempty_words_add(a, b.drop_last());
        if b.last().len() > 0 {
            assert(nonempty_words(a) + nonempty_words(b.drop_last()).push(b.last()) =~= (
            nonempty_words(a) + nonempty_words(b.drop_last())).push(b.last()));
        }
    }
}

proof fn lemma_split_spaces_no_space(s: Seq<char>)
    ensures
        forall|i: int| 0 <= i < split_spaces(s).len() ==> !(#[trigger] split_spaces(s)[i]).contains(' '),
    decreases s.len(),
{
    if s.len() > 0 {
        let t = s.drop_last();
        lemma_split_spaces_no_space(t);
        lemma_split_spaces_nonempty(t);
        let p = split_spaces(t);
        if s.last() != ' ' {
            let w = p.last().push(s.last());
            assert(!p.last().contains(' '));
            assert forall|k: int| 0 <= k < w.len() implies w[k] != ' ' by {
                if k < w.len() - 1 {
                    assert(w[k] == p.last()[k]);
                }
            }
            assert forall|i: int| 0 <= i < split_spaces(s).len() implies !(#[trigger] split_spaces(
                s,
            )[i]).contains(' ') by {
                if i < p.len() - 1 {
                    assert(split_spaces(s)[i] == p[i]);
                }
            }
        } else {
            assert forall|i: int| 0 <= i < split_spaces(s).len() implies !(#[trigger] split_spaces(
                s,
            )[i]).contains(' ') by {
                if i < p.len() {
                    assert(split_spaces(s)[i] == p[i]);
                } else {
                    assert(split_spaces(s)[i] =~= Seq::<char>::empty());
                }
            }
        }
    }
}

proof fn lemma_split_spaces_word(w: Seq<char>)
    requires
        !w.contains(' '),
    ensures
        split_spaces(w) == seq![w],
    decreases w.len(),
{
    if w.len() == 0 {
        assert(w =~= Seq::<char>::empty());
    } else {
        let t = w.drop_last();
        assert(!t.contains(' ')) by {
            if t.contains(' ') {
                let k = choose|k: int| 0 <= k < t.len() && t[k] == ' ';
                assert(w[k] == ' ');
            }
        }
        lemma_split_spaces_word(t);
        assert(w[w.len() - 1] != ' ');
        assert(t.push(w.last()) =~= w);
        assert(seq![t].update(0, t.push(w.last())) =~= seq![w]);
    }
}

proof fn lemma_split_spaces_join(a: Seq<char>, b: Seq<char>)
    ensures
        split_spaces(a.push(' ') + b) == split_spaces(a) + split_spaces(b),
    decreases b.len(),
{
    if b.len() == 0 {
        assert(a.push(' ') + b =~= a.push(' '));
        assert(a.push(' ').drop_last() =~= a);
        assert(split_spaces(a) + split_spaces(b) =~= split_spaces(a).push(Seq::<char>::empty()));
    } else {
        let bb = b.drop_last();
        let c = b.last();
        assert((a.push(' ') + b).drop_last() =~= a.push(' ') + bb);
        assert((a.push(' ') + b).last() == c);
        lemma_split_spaces_join(a, bb);
        lemma_split_spaces_nonempty(bb);
        lemma_split_spaces_nonempty(a);
        let pa = split_spaces(a);
        let pb = split_spaces(bb);
        if c == ' ' {
            assert((pa + pb).push(Seq::<char>::empty()) =~= pa + pb.push(Seq::<char>::empty()));
        } else {
            assert((pa + pb).update((pa + pb).len() - 1, (pa + pb).last().push(c)) =~= pa + pb.update(
                pb.len() - 1,
                pb.last().push(c),
            ));
        }
    }
}

/// The words of a single word: itself, when it is not empty.
proof fn lemma_words_of_word(w: Seq<char>)
    requires
        !w.contains(' '),
    ensures
        words(w) == (if w.len() > 0 {
            seq![w]
        } else {
            Seq::<Seq<char>>::empty()
        }),
{
    lemma_split_spaces_word(w);
    let ws = seq![w];
    assert(ws.drop_last() =~= Seq::<Seq<char>>::empty());
    assert(nonempty_words(ws.drop_last()) == Seq::<Seq<char>>::empty());
    assert(ws.last() == w);
    if w.len() > 0 {
        assert(Seq::<Seq<char>>::empty().push(w) =~= seq![w]);
    }
}

/// Packing keeps every word, in order, and leaves every chunk either within
/// the limit or a single word.
proof fn lemma_pack_words(ws: Seq<Seq<char>>, max: nat)
    requires
        forall|i: int| 0 <= i < ws.len() ==> !(#[trigger] ws[i]).contains(' '),
    ensures
        chunk_words(pack_words(ws, max).0) + words(pack_words(ws, max).1) == nonempty_words(ws),
        forall|j: int|
            0 <= j < pack_words(ws, max).0.len() ==> fits_or_one_word(
                #[trigger] pack_words(ws, max).0[j],
                max,
            ),
        fits_or_one_word(pack_words(ws, max).1, max),
    decreases ws.len(),
{
    if ws.len() == 0 {
        lemma_words_of_word(Seq::<char>::empty());
        assert(chunk_words(Seq::<Seq<char>>::empty()) + words(Seq::<char>::empty()) =~= Seq::<
            Seq<char>,
        >::empty());
    } else {
        let prev = ws.drop_last();
        let w = ws.last();
        assert(!w.contains(' '));
        assert forall|i: int| 0 <= i < prev.len() implies !(#[trigger] prev[i]).contains(' ') by {
            assert(prev[i] == ws[i]);
        }
        lemma_pack_words(prev, max);
        lemma_words_of_word(w);
        let st = pack_words(prev, max);
        let nw = nonempty_words(prev);
        assert(nonempty_words(ws) =~= nw + words(w));
        if st.1.len() == 0 {
            assert(st.1 + w =~= w);
            lemma_words_of_word(st.1);
            assert(chunk_words(st.0) =~= nw);
        } else if utf8_len(st.1) + 1 + utf8_len(w) > max {
            let closed = st.0.push(st.1);
            assert(closed.drop_last() =~= st.0);
            assert(chunk_words(closed) == chunk_words(st.0) + words(st.1));
            assert(chunk_words(closed) + words(w) =~= chunk_words(st.0) + words(st.1) + words(w));
            assert forall|j: int| 0 <= j < closed.len() implies fits_or_one_word(
                #[trigger] closed[j],
                max,
            ) by {
                if j < st.0.len() {
                    assert(closed[j] == st.0[j]);
                }
            }
        } else {
            let joined = st.1.push(' ') + w;
            lemma_split_spaces_join(st.1, w);
            lemma_nonempty_words_add(split_spaces(st.1), split_spaces(w));
            assert(words(joined) == words(st.1) + words(w));
            assert(chunk_words(st.0) + words(joined) =~= chunk_words(st.0) + words(st.1) + words(w));
            lemma_utf8_len_push(st.1, ' ');
            lemma_utf8_len_single(' ');
            lemma_utf8_len_concat(st.1.push(' '), w);
        }
    }
}

/// Chunking never breaks or loses a word: the words of the chunks, in
/// order, are the words of the text.
pub proof fn law_chunks_keep_words(text: Seq<char>, max: nat)
    ensures
        chunk_words(chunks_of(text, max)) == words(text),
{
    let cs = chunks_of(text, max);
    if text.len() == 0 {
        assert(text =~= Seq::<char>::empty());
        assert(cs.drop_last() =~= Seq::<Seq<char>>::empty());
        assert(cs.last() == text);
        lemma_words_of_word(text);
        assert(chunk_words(cs) == chunk_words(cs.drop_last()) + words(cs.last()));
        assert(chunk_words(cs) =~= words(text));
    } else if utf8_len(text) <= max {
        assert(cs.drop_last() =~= Seq::<Seq<char>>::empty());
        assert(cs.last() == text);
        assert(chunk_words(cs) == chunk_words(cs.drop_last()) + words(cs.last()));
        assert(chunk_words(cs) =~= words(text));
    } else {
        let ws = split_spaces(text);
        lemma_split_spaces_no_space(text);
        lemma_pack_words(ws, max);
        let st = pack_words(ws, max);
        if st.1.len() > 0 {
            assert(st.0.push(st.1).drop_last() =~= st.0);
        } else {
            lemma_words_of_word(st.1);
            assert(chunk_words(st.0) + words(st.1) =~= chunk_words(st.0));
        }
    }
}

/// Every chunk fits in the limit unless it is a single word too long to
/// fit, which then stands alone.
pub proof fn law_chunks_fit_or_single_word(text: Seq<char>, max: nat)
    ensures
        forall|j: int|
            0 <= j < chunks_of(text, max).len() ==> fits_or_one_word(
                #[trigger] chunks_of(text, max)[j],
                max,
            ),
{
    if text.len() == 0 {
        assert(utf8_len(Seq::<char>::empty()) == 0) by {
            reveal_with_fuel(vstd::utf8::encode_utf8, 1);
        }
        assert(chunks_of(text, max)[0] =~= Seq::<char>::empty());
    } else if utf8_len(text) > max {
        let ws = split_spaces(text);
        lemma_split_spaces_no_space(text);
        lemma_pack_words(ws, max);
        let st = pack_words(ws, max);
        if st.1.len() > 0 {
            assert forall|j: int| 0 <= j < st.0.push(st.1).len() implies fits_or_one_word(
                #[trigger] st.0.push(st.1)[j],
                max,
            ) by {
                if j < st.0.len() {
                    assert(st.0.push(st.1)[j] == st.0[j]);
                }
            }
        }
    }
}

/// Truncation keeps the result within the limit whenever the limit leaves
/// room for the ellipsis (or the text already fits).
pub proof fn law_truncated_fits(text: Seq<char>, max: nat)
    requires
        max >= 3 || utf8_len(text) <= max,
    ensures
        utf8_len(truncated(text, max)) <= max,
{
    if utf8_len(text) > max {
        let limit = (max - 3) as nat;
        let k = fitting_prefix_len(text, limit);
        lemma_fitting_prefix_fits(text, limit);
        lemma_utf8_len_concat(text.take(k as int), ellipsis());
        lemma_utf8_len_single('\u{2026}');
        assert(ellipsis() =~= seq!['\u{2026}']);
        assert(char_utf8_len('\u{2026}') == 3) by {
            reveal_with_fuel(vstd::utf8::encode_scalar, 1);
        }
    }
}

/// The fitting prefix fits.
proof fn lemma_fitting_prefix_fits(s: Seq<char>, limit: nat)
    ensures
        utf8_len(s.take(fitting_prefix_len(s, limit) as int)) <= limit,
    decreases s.len(),
{
    if utf8_len(s) <= limit {
        assert(s.take(s.len() as int) =~= s);
    } else if s.len() == 0 {
        assert(s.take(0) =~= s);
    } else {
        let t = s.drop_last();
        lemma_fitting_prefix_fits(t, limit);
        lemma_fitting_prefix_len_bound(t, limit);
        assert(t.take(fitting_prefix_len(t, limit) as int) =~= s.take(fitting_prefix_len(t, limit) as int));
    }
}

} // verus!
