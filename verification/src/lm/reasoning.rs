//! Separating a model's `<think>…</think>` reasoning from its answer: for a
//! whole response, and incrementally for a stream of tokens.

use vstd::prelude::*;
use vstd::utf8::encode_utf8;
use crate::text::{
    byte_len, char_width, char_width_exec, chars_of, extend_from, find_chars, find_from,
    lemma_byte_len_bounds, lemma_byte_len_push, lemma_find_from, slice_vec, string_of, trim,
    trim_chars, byte_len_exec, matches_at,
};

verus! {

/// The tag that opens a reasoning block.
pub open spec fn open_tag() -> Seq<char> {
    "<think>"@
}

/// The tag that closes a reasoning block.
pub open spec fn close_tag() -> Seq<char> {
    "</think>"@
}

/// The tag that ends the current mode: the closing tag inside reasoning, the
/// opening tag outside.
pub open spec fn awaited_tag(in_think: bool) -> Seq<char> {
    if in_think {
        close_tag()
    } else {
        open_tag()
    }
}

pub proof fn lemma_tags()
    ensures
        open_tag().len() == 7,
        close_tag().len() == 8,
{
    reveal_strlit("<think>");
    reveal_strlit("</think>");
}

// ── Whole responses ─────────────────────────────────────────────────────────

/// Answer text and reasoning text of `s[pos..]`: text outside `<think>…</think>`
/// blocks is answer, text inside is reasoning, and an unclosed block runs to the end.
pub open spec fn think_split(s: Seq<char>, pos: int) -> (Seq<char>, Seq<char>)
    decreases s.len() - pos,
{
    if pos < 0 || pos > s.len() {
        (Seq::empty(), Seq::empty())
    } else {
        match find_from(s, open_tag(), pos) {
            None => (s.subrange(pos, s.len() as int), Seq::empty()),
            Some(i) => {
                proof {
                    lemma_tags();
                    lemma_find_from(s, open_tag(), pos);
                }
                match find_from(s, close_tag(), i + 7) {
                    None => (s.subrange(pos, i), s.subrange(i + 7, s.len() as int)),
                    Some(j) => {
                        proof {
                            lemma_find_from(s, close_tag(), i + 7);
                        }
                        let rest = think_split(s, j + 8);
                        (s.subrange(pos, i) + rest.0, s.subrange(i + 7, j) + rest.1)
                    },
                }
            },
        }
    }
}

/// A response without any `<think>` tag is all answer and no reasoning.
pub proof fn lemma_no_think_block(s: Seq<char>)
    requires
        forall|k: int| !matches_at(s, "<think>"@, k),
    ensures
        think_split(s, 0).0 == s,
        think_split(s, 0).1.len() == 0,
{
    lemma_tags();
    lemma_find_from(s, "<think>"@, 0);
    assert(s.subrange(0, s.len() as int) =~= s);
}

/// A `<think>` block that is never closed (a reply cut off inside its
/// reasoning) runs to the end: with the first `<think>` at `i` and no
/// `</think>` after it, the answer is the text before the tag and the
/// reasoning is all the text after it.
pub proof fn lemma_unclosed_think_block(s: Seq<char>, i: int)
    requires
        matches_at(s, "<think>"@, i),
        forall|k: int| k < i ==> !matches_at(s, "<think>"@, k),
        forall|k: int| k >= i + "<think>"@.len() ==> !matches_at(s, "</think>"@, k),
    ensures
        think_split(s, 0).0 == s.take(i),
        think_split(s, 0).1 == s.subrange(i + "<think>"@.len(), s.len() as int),
{
    lemma_tags();
    lemma_find_from(s, "<think>"@, 0);
    lemma_find_from(s, "</think>"@, i + 7);
    assert(s.subrange(0, i) =~= s.take(i));
}

/// One closed `<think>` block and nothing after it that opens another: the
/// block's inside is the reasoning, and the answer is the text around it with
/// both tags removed.
pub proof fn lemma_closed_think_block(s: Seq<char>, i: int, j: int)
    requires
        matches_at(s, "<think>"@, i),
        forall|k: int| k < i ==> !matches_at(s, "<think>"@, k),
        j >= i + "<think>"@.len(),
        matches_at(s, "</think>"@, j),
        forall|k: int| i + "<think>"@.len() <= k < j ==> !matches_at(s, "</think>"@, k),
        forall|k: int| k >= j + "</think>"@.len() ==> !matches_at(s, "<think>"@, k),
    ensures
        think_split(s, 0).0 == s.take(i) + s.subrange(j + "</think>"@.len(), s.len() as int),
        think_split(s, 0).1 == s.subrange(i + "<think>"@.len(), j),
{
    lemma_tags();
    lemma_find_from(s, "<think>"@, 0);
    lemma_find_from(s, "</think>"@, i + 7);
    lemma_find_from(s, "<think>"@, j + 8);
    assert(find_from(s, open_tag(), 0) == Some(i));
    assert(find_from(s, close_tag(), i + 7) == Some(j));
    assert(find_from(s, open_tag(), j + 8) is None);
    let rest = think_split(s, j + 8);
    assert(rest == (s.subrange(j + 8, s.len() as int), Seq::<char>::empty()));
    assert(think_split(s, 0) == (s.subrange(0, i) + rest.0, s.subrange(i + 7, j) + rest.1));
    assert(s.subrange(0, i) =~= s.take(i));
    assert(s.subrange(i + 7, j) + Seq::<char>::empty() =~= s.subrange(i + 7, j));
}

/// Splits a model response into its answer and its reasoning: every
/// `<think>…</think>` block (an unclosed one runs to the end) goes to the
/// reasoning; both parts are trimmed, and no reasoning yields `None`.
pub fn extract_reasoning(response: String) -> (r: (String, Option<String>))
    ensures
        r.0@ == trim(think_split(response@, 0).0),
        r.1 is None <==> think_split(response@, 0).1.len() == 0,
        r.1 matches Some(x) ==> x@ == trim(think_split(response@, 0).1),
{
    proof {
        lemma_tags();
    }
    let s = chars_of(response.as_str());
    let open = chars_of("<think>");
    let close = chars_of("</think>");
    let n = s.len();
    let mut cleaned: Vec<char> = Vec::new();
    let mut reasoning: Vec<char> = Vec::new();
    let mut pos: usize = 0;
    loop
        invariant_except_break
            think_split(s@, 0).0 == cleaned@ + think_split(s@, pos as int).0,
            think_split(s@, 0).1 == reasoning@ + think_split(s@, pos as int).1,
        invariant
            n == s@.len(),
            open@ == open_tag(),
            close@ == close_tag(),
            open_tag().len() == 7,
            close_tag().len() == 8,
            0 <= pos <= n,
        ensures
            think_split(s@, 0).0 == cleaned@,
            think_split(s@, 0).1 == reasoning@,
        decreases n - pos,
    {
        match find_chars(s.as_slice(), open.as_slice(), pos) {
            None => {
                let ghost c0 = cleaned@;
                extend_from(&mut cleaned, s.as_slice(), pos, n);
                assert(think_split(s@, pos as int).1 =~= Seq::<char>::empty());
                assert(reasoning@ + Seq::<char>::empty() =~= reasoning@);
                break;
            },
            Some(i) => {
                proof {
                    lemma_find_from(s@, open_tag(), pos as int);
                }
                match find_chars(s.as_slice(), close.as_slice(), i + 7) {
                    None => {
                        extend_from(&mut cleaned, s.as_slice(), pos, i);
                        extend_from(&mut reasoning, s.as_slice(), i + 7, n);
                        break;
                    },
                    Some(j) => {
                        proof {
                            lemma_find_from(s@, close_tag(), i + 7);
                        }
                        let ghost c0 = cleaned@;
                        let ghost r0 = reasoning@;
                        extend_from(&mut cleaned, s.as_slice(), pos, i);
                        extend_from(&mut reasoning, s.as_slice(), i + 7, j);
                        assert(c0 + (s@.subrange(pos as int, i as int) + think_split(s@, j + 8).0)
                            =~= cleaned@ + think_split(s@, j + 8).0);
                        assert(r0 + (s@.subrange(i + 7, j as int) + think_split(s@, j + 8).1)
                            =~= reasoning@ + think_split(s@, j + 8).1);
                        pos = j + 8;
                    },
                }
            },
        }
    }
    let content = trim_chars(cleaned.as_slice());
    let content = string_of(content.as_slice());
    if reasoning.len() == 0 {
        (content, None)
    } else {
        let t = trim_chars(reasoning.as_slice());
        (content, Some(string_of(t.as_slice())))
    }
}

// ── Streams of tokens ───────────────────────────────────────────────────────

/// `s` ends with a proper, non-empty prefix of `p`, comparing bytes.
pub open spec fn ends_with_partial_prefix_bytes(s: Seq<u8>, p: Seq<u8>) -> bool {
    exists|k: int|
        1 <= k < p.len() && k <= s.len() && #[trigger] s.subrange(s.len() - k, s.len() as int)
            == p.subrange(0, k)
}

/// The UTF-8 encoding of `s` ends with a proper, non-empty prefix of the
/// encoding of `prefix`: the tail of a stream may be the start of `prefix`.
pub fn ends_with_partial_prefix(s: &str, prefix: &str) -> (r: bool)
    ensures
        r == ends_with_partial_prefix_bytes(encode_utf8(s@), encode_utf8(prefix@)),
{
    let bytes = s.as_bytes();
    let pb = prefix.as_bytes();
    let ghost sb = encode_utf8(s@);
    let ghost qb = encode_utf8(prefix@);
    if pb.len() == 0 {
        return false;
    }
    let blen = bytes.len();
    let mut len: usize = pb.len() - 1;
    while len >= 1
        invariant
            sb == encode_utf8(s@),
            qb == encode_utf8(prefix@),
            blen == bytes@.len(),
            bytes@ == sb,
            pb@ == qb,
            len < pb@.len(),
            forall|k: int|
                len < k < pb@.len() && k <= sb.len() ==> #[trigger] sb.subrange(
                    sb.len() - k,
                    sb.len() as int,
                ) != qb.subrange(0, k),
        decreases len,
    {
        if len <= bytes.len() {
            let off = bytes.len() - len;
            let mut j: usize = 0;
            let mut same = true;
            while j < len
                invariant
                    blen == bytes@.len(),
                    bytes@ == sb,
                    pb@ == qb,
                    len < pb@.len(),
                    len <= bytes@.len(),
                    off == bytes@.len() - len,
                    0 <= j <= len,
                    same == (forall|m: int| 0 <= m < j ==> sb[off + m] == qb[m]),
                decreases len - j,
            {
                if bytes[off + j] != pb[j] {
                    same = false;
                }
                j = j + 1;
            }
            if same {
                assert(sb.subrange(sb.len() - len, sb.len() as int) =~= qb.subrange(0, len as int));
                assert(1 <= len < qb.len() && len <= sb.len() && sb.subrange(
                    sb.len() - (len as int),
                    sb.len() as int,
                ) == qb.subrange(0, len as int));
                return true;
            } else {
                proof {
                    let m = choose|m: int| 0 <= m < len && sb[off + m] != qb[m];
                    assert(sb.subrange(sb.len() - len, sb.len() as int)[m] != qb.subrange(
                        0,
                        len as int,
                    )[m]);
                }
            }
        }
        len = len - 1;
    }
    false
}

/// The character index `j` such that `s[j..]` takes exactly `k` bytes, found by
/// walking back from the end; none when the byte offset falls inside a character
/// or `s` is shorter than `k` bytes.
pub open spec fn cut_from_end(s: Seq<char>, k: nat) -> Option<int>
    decreases s.len(),
{
    if k == 0 {
        Some(s.len() as int)
    } else if s.len() == 0 {
        None
    } else if char_width(s.last()) > k {
        None
    } else {
        cut_from_end(s.drop_last(), (k - char_width(s.last())) as nat)
    }
}

/// Where `s` is cut when its last `k` bytes are held back (the byte offset
/// `len - k`, saturating at zero), as a character index; none when that byte
/// offset falls inside a character, where slicing the string would panic.
pub open spec fn held_back_cut(s: Seq<char>, k: nat) -> Option<int> {
    if byte_len(s) <= k {
        Some(0)
    } else {
        cut_from_end(s, k)
    }
}

/// The cut that `cut_from_end` finds leaves exactly `k` bytes after it.
pub proof fn lemma_cut_from_end(s: Seq<char>, k: nat)
    ensures
        cut_from_end(s, k) matches Some(j) ==> 0 <= j <= s.len() && byte_len(
            s.subrange(j, s.len() as int),
        ) == k,
    decreases s.len(),
{
    if k == 0 {
        assert(s.subrange(s.len() as int, s.len() as int) =~= Seq::<char>::empty());
        assert(encode_utf8(Seq::<char>::empty()) =~= Seq::<u8>::empty());
    } else if s.len() == 0 {
    } else if char_width(s.last()) > k {
    } else {
        let w = char_width(s.last());
        lemma_cut_from_end(s.drop_last(), (k - w) as nat);
        if let Some(j) = cut_from_end(s, k) {
            let t = s.drop_last();
            assert(s.subrange(j, s.len() as int) =~= t.subrange(j, t.len() as int).push(s.last()));
            lemma_byte_len_push(t.subrange(j, t.len() as int), s.last());
        }
    }
}

/// The character index at which `s` keeps its last `k` bytes.
pub fn cut_from_end_exec(s: &[char], k: usize) -> (r: Option<usize>)
    ensures
        match r {
            Some(j) => cut_from_end(s@, k as nat) == Some(j as int),
            None => cut_from_end(s@, k as nat) is None,
        },
{
    let mut i = s.len();
    let mut acc: usize = 0;
    assert(s@.take(i as int) =~= s@);
    while acc < k && i > 0
        invariant
            0 <= i <= s@.len(),
            acc <= k,
            cut_from_end(s@, k as nat) == cut_from_end(s@.take(i as int), (k - acc) as nat),
        decreases i,
    {
        let w = char_width_exec(s[i - 1]);
        let ghost t = s@.take(i as int);
        assert(t.last() == s@[i - 1]);
        if w > k - acc {
            return None;
        }
        assert(t.drop_last() =~= s@.take(i - 1));
        acc = acc + w;
        i = i - 1;
    }
    if acc == k {
        Some(i)
    } else {
        None
    }
}

/// Where the tail `s` is cut when its last `k` bytes are held back.
pub fn held_back_cut_exec(s: &[char], k: usize) -> (r: Option<usize>)
    ensures
        match r {
            Some(j) => held_back_cut(s@, k as nat) == Some(j as int) && j <= s@.len(),
            None => held_back_cut(s@, k as nat) is None,
        },
{
    proof {
        lemma_cut_from_end(s@, k as nat);
    }
    if byte_len_exec(s) <= k as u128 {
        Some(0)
    } else {
        cut_from_end_exec(s, k)
    }
}

/// What routing the buffered text `s[pos..]` yields: answer text, reasoning
/// text, the text kept back for the next token, the mode afterwards, and
/// whether the routing stays defined (a cut inside a character is not).
pub struct Routed {
    pub content: Seq<char>,
    pub reasoning: Seq<char>,
    pub rest: Seq<char>,
    pub in_think: bool,
    pub defined: bool,
}

/// Routes `s[pos..]`: text before the awaited tag goes to the current mode and
/// the tag switches mode; at the end, when the text ends with the start of the
/// awaited tag, all but the tag's length less one bytes are emitted and the
/// rest is kept back; otherwise everything is emitted.
pub open spec fn route_from(s: Seq<char>, pos: int, in_think: bool) -> Routed
    decreases s.len() - pos,
{
    if pos < 0 || pos > s.len() {
        Routed {
            content: Seq::empty(),
            reasoning: Seq::empty(),
            rest: Seq::empty(),
            in_think,
            defined: false,
        }
    } else {
        let tag = awaited_tag(in_think);
        match find_from(s, tag, pos) {
            Some(p) => {
                proof {
                    lemma_tags();
                    lemma_find_from(s, tag, pos);
                }
                let r = route_from(s, p + tag.len(), !in_think);
                let emitted = s.subrange(pos, p);
                if in_think {
                    Routed { reasoning: emitted + r.reasoning, ..r }
                } else {
                    Routed { content: emitted + r.content, ..r }
                }
            },
            None => {
                let tail = s.subrange(pos, s.len() as int);
                let (emit, rest, defined) = if ends_with_partial_prefix_bytes(
                    encode_utf8(tail),
                    encode_utf8(tag),
                ) {
                    match held_back_cut(tail, (byte_len(tag) - 1) as nat) {
                        Some(j) => (tail.take(j), tail.skip(j), true),
                        None => (Seq::empty(), Seq::empty(), false),
                    }
                } else {
                    (tail, Seq::empty(), true)
                };
                if in_think {
                    Routed {
                        content: Seq::empty(),
                        reasoning: emit,
                        rest,
                        in_think,
                        defined,
                    }
                } else {
                    Routed {
                        content: emit,
                        reasoning: Seq::empty(),
                        rest,
                        in_think,
                        defined,
                    }
                }
            },
        }
    }
}

/// The number of tag characters that routing `s[pos..]` from the mode
/// `in_think` consumes: each awaited tag found switches the mode.
pub open spec fn tag_chars(s: Seq<char>, pos: int, in_think: bool) -> int
    decreases s.len() - pos,
{
    if pos < 0 || pos > s.len() {
        0
    } else {
        let tag = awaited_tag(in_think);
        match find_from(s, tag, pos) {
            Some(p) => {
                proof {
                    lemma_tags();
                    lemma_find_from(s, tag, pos);
                }
                tag.len() + tag_chars(s, p + tag.len(), !in_think)
            },
            None => 0,
        }
    }
}

/// Routing loses no character: every character of `s[pos..]` is sent as
/// answer or reasoning, kept back for the next token, or belongs to a tag.
pub proof fn lemma_route_keeps_every_char(s: Seq<char>, pos: int, in_think: bool)
    requires
        0 <= pos <= s.len(),
        route_from(s, pos, in_think).defined,
    ensures
        route_from(s, pos, in_think).content.len() + route_from(s, pos, in_think).reasoning.len()
            + route_from(s, pos, in_think).rest.len() + tag_chars(s, pos, in_think) == s.len() - pos,
    decreases s.len() - pos,
{
    lemma_tags();
    let tag = awaited_tag(in_think);
    lemma_find_from(s, tag, pos);
    match find_from(s, tag, pos) {
        Some(p) => {
            lemma_route_keeps_every_char(s, p + tag.len(), !in_think);
        },
        None => {
            let tail = s.subrange(pos, s.len() as int);
            if ends_with_partial_prefix_bytes(encode_utf8(tail), encode_utf8(tag)) {
                lemma_cut_from_end(tail, (byte_len(tag) - 1) as nat);
            }
        },
    }
}

/// Routing `buffer + token` from the mode `in_think` never cuts inside a character.
pub open spec fn classify_defined(buffer: Seq<char>, token: Seq<char>, in_think: bool) -> bool {
    route_from(buffer + token, 0, in_think).defined
}

/// Routes the text `s`; none when a cut would fall inside a character.
fn route_scan(s: &[char], in_think: bool) -> (r: Option<(Vec<char>, Vec<char>, Vec<char>, bool)>)
    ensures
        r is Some <==> route_from(s@, 0, in_think).defined,
        r matches Some(t) ==> t.0@ == route_from(s@, 0, in_think).content && t.1@ == route_from(
            s@,
            0,
            in_think,
        ).reasoning && t.2@ == route_from(s@, 0, in_think).rest && t.3 == route_from(
            s@,
            0,
            in_think,
        ).in_think,
{
    proof {
        lemma_tags();
    }
    let open = chars_of("<think>");
    let close = chars_of("</think>");
    let n = s.len();
    let mut content: Vec<char> = Vec::new();
    let mut reasoning: Vec<char> = Vec::new();
    let mut state = in_think;
    let mut pos: usize = 0;
    let ghost whole = route_from(s@, 0, in_think);
    loop
        invariant
            n == s@.len(),
            open@ == open_tag(),
            close@ == close_tag(),
            open_tag().len() == 7,
            close_tag().len() == 8,
            0 <= pos <= n,
            whole == route_from(s@, 0, in_think),
            whole.defined == route_from(s@, pos as int, state).defined,
            whole.content == content@ + route_from(s@, pos as int, state).content,
            whole.reasoning == reasoning@ + route_from(s@, pos as int, state).reasoning,
            whole.rest == route_from(s@, pos as int, state).rest,
            whole.in_think == route_from(s@, pos as int, state).in_think,
        decreases n - pos,
    {
        let tag: &[char] = if state {
            close.as_slice()
        } else {
            open.as_slice()
        };
        assert(tag@ == awaited_tag(state));
        match find_chars(s, tag, pos) {
            Some(p) => {
                proof {
                    lemma_find_from(s@, awaited_tag(state), pos as int);
                }
                let ghost c0 = content@;
                let ghost r0 = reasoning@;
                let next = p + tag.len();
                let ghost after = route_from(s@, next as int, !state);
                if state {
                    extend_from(&mut reasoning, s, pos, p);
                    assert(r0 + (s@.subrange(pos as int, p as int) + after.reasoning) =~= reasoning@
                        + after.reasoning);
                } else {
                    extend_from(&mut content, s, pos, p);
                    assert(c0 + (s@.subrange(pos as int, p as int) + after.content) =~= content@
                        + after.content);
                }
                pos = next;
                state = !state;
            },
            None => {
                let tail = slice_vec(s, pos, n);
                let tail_str = string_of(tail.as_slice());
                let ghost tagv = awaited_tag(state);
                let ghost here = route_from(s@, pos as int, state);
                let tag_str = string_of(tag);
                if ends_with_partial_prefix(tail_str.as_str(), tag_str.as_str()) {
                    proof {
                        lemma_byte_len_bounds(tag@);
                    }
                    let keep = (byte_len_exec(tag) - 1) as usize;
                    match held_back_cut_exec(tail.as_slice(), keep) {
                        Some(j) => {
                            let rest = slice_vec(tail.as_slice(), j, tail.len());
                            if state {
                                extend_from(&mut reasoning, tail.as_slice(), 0, j);
                            } else {
                                extend_from(&mut content, tail.as_slice(), 0, j);
                            }
                            assert(tail@.subrange(0, j as int) =~= tail@.take(j as int));
                            assert(tail@.subrange(j as int, tail@.len() as int) =~= tail@.skip(
                                j as int,
                            ));
                            assert(content@ =~= content@ + Seq::<char>::empty());
                            assert(reasoning@ =~= reasoning@ + Seq::<char>::empty());
                            return Some((content, reasoning, rest, state));
                        },
                        None => {
                            return None;
                        },
                    }
                } else {
                    if state {
                        extend_from(&mut reasoning, tail.as_slice(), 0, tail.len());
                    } else {
                        extend_from(&mut content, tail.as_slice(), 0, tail.len());
                    }
                    assert(tail@.subrange(0, tail@.len() as int) =~= tail@);
                    assert(content@ =~= content@ + Seq::<char>::empty());
                    assert(reasoning@ =~= reasoning@ + Seq::<char>::empty());
                    return Some((content, reasoning, Vec::new(), state));
                }
            },
        }
    }
}

/// Routes a streamed token to the answer or to the reasoning according to the
/// `<think>` tags seen so far. `buf` holds text kept back from earlier tokens
/// that may begin a tag split across tokens; it is replaced by what is kept back
/// now. Returns the answer text and the reasoning text of this step (`None`
/// when empty) and whether the stream is inside reasoning afterwards.
pub fn classify_token(token: &str, buf: &mut String, in_think: bool) -> (r: (
    Option<String>,
    Option<String>,
    bool,
))
    requires
        classify_defined(old(buf)@, token@, in_think),
    ensures
        ({
            let o = route_from(old(buf)@ + token@, 0, in_think);
            &&& final(buf)@ == o.rest
            &&& r.2 == o.in_think
            &&& (r.0 is None <==> o.content.len() == 0)
            &&& (r.0 matches Some(c) ==> c@ == o.content)
            &&& (r.1 is None <==> o.reasoning.len() == 0)
            &&& (r.1 matches Some(t) ==> t@ == o.reasoning)
        }),
{
    buf.append(token);
    let s = chars_of(buf.as_str());
    let scanned = route_scan(s.as_slice(), in_think);
    match scanned {
        Some((content, reasoning, rest, state)) => {
            *buf = string_of(rest.as_slice());
            let c = if content.len() == 0 {
                None
            } else {
                Some(string_of(content.as_slice()))
            };
            let t = if reasoning.len() == 0 {
                None
            } else {
                Some(string_of(reasoning.as_slice()))
            };
            (c, t, state)
        },
        None => {
            *buf = String::new();
            (None, None, in_think)
        },
    }
}

/// Whether routing `token` after the kept-back text `buf` stays defined (the
/// routing never cuts inside a character); `classify_token` asks for it.
pub fn classify_token_defined(token: &str, buf: &str, in_think: bool) -> (r: bool)
    ensures
        r == classify_defined(buf@, token@, in_think),
{
    let mut whole = buf.to_owned();
    whole.append(token);
    let s = chars_of(whole.as_str());
    route_scan(s.as_slice(), in_think).is_some()
}

} // verus!
