//! Stop strings and what a generation reports about its end.
//!
//! A finished response is cut at the earliest place where any of the stop
//! strings occurs. A streamed
//! response is scanned as its tokens arrive: the text is held back by as many
//! bytes as the longest stop string has, so that no part of a stop string that
//! spans tokens is ever sent; when a stop string shows up, what precedes it is
//! sent and the stream ends.

use vstd::prelude::*;
use crate::text::{
    byte_len, chars_of, find_chars, find_first, lemma_find_from, lemma_prefix_byte_len_mono,
    matches_at, prefix_byte_len, slice_string, str_byte_len, string_of, byte_len_exec,
};
use crate::lm::reasoning::{cut_from_end, cut_from_end_exec, lemma_cut_from_end};
use crate::lm::models::string_views;

verus! {

/// The most tokens a single request may generate.
pub const MAX_TOKEN_LIMIT: usize = 32768;

/// The token budget of a request: at least one token and at most
/// `MAX_TOKEN_LIMIT`.
pub open spec fn clamped_tokens(n: int) -> int {
    if n > MAX_TOKEN_LIMIT {
        MAX_TOKEN_LIMIT as int
    } else if n < 1 {
        1
    } else {
        n
    }
}

/// `n` limited to `1..=MAX_TOKEN_LIMIT`.
pub fn clamp_max_tokens(n: usize) -> (r: usize)
    ensures
        r == clamped_tokens(n as int),
{
    let m = if n < MAX_TOKEN_LIMIT {
        n
    } else {
        MAX_TOKEN_LIMIT
    };
    if m < 1 {
        1
    } else {
        m
    }
}

/// The prompt tokens still to be fed when a session cache already holds the
/// first `cached_offset` of them: those after the cached ones when the cache
/// covers a proper non-empty prefix, all of them otherwise.
pub fn delta_prompt_ids(all_ids: Vec<i64>, cached_offset: usize) -> (r: Vec<i64>)
    ensures
        r@ == if 0 < cached_offset && cached_offset < all_ids@.len() {
            all_ids@.skip(cached_offset as int)
        } else {
            all_ids@
        },
{
    if cached_offset > 0 && cached_offset < all_ids.len() {
        let mut r: Vec<i64> = Vec::new();
        let mut i = cached_offset;
        while i < all_ids.len()
            invariant
                cached_offset <= i <= all_ids@.len(),
                r@ == all_ids@.subrange(cached_offset as int, i as int),
            decreases all_ids@.len() - i,
        {
            r.push(all_ids[i]);
            assert(r@ =~= all_ids@.subrange(cached_offset as int, i + 1));
            i = i + 1;
        }
        assert(r@ =~= all_ids@.skip(cached_offset as int));
        r
    } else {
        all_ids
    }
}

/// The finish reason a plain generation reports: `length` when it used its whole
/// token budget, `stop` otherwise.
pub fn length_or_stop(generated_tokens: usize, max_tokens: usize) -> (r: String)
    ensures
        r@ == if generated_tokens >= max_tokens {
            "length"@
        } else {
            "stop"@
        },
{
    if generated_tokens >= max_tokens {
        "length".to_string()
    } else {
        "stop".to_string()
    }
}

/// The finish reason once the response is post-processed: `tool_calls` when
/// tool calls were parsed from it, `stop` when a stop string cut it, and the
/// generator's own reason otherwise.
pub fn settle_finish_reason(reason: String, stop_hit: bool, has_tool_calls: bool) -> (r: String)
    ensures
        r@ == if has_tool_calls {
            "tool_calls"@
        } else if stop_hit {
            "stop"@
        } else {
            reason@
        },
{
    if has_tool_calls {
        "tool_calls".to_string()
    } else if stop_hit {
        "stop".to_string()
    } else {
        reason
    }
}

// ── Finding stop strings ────────────────────────────────────────────────────

/// The earlier of two optional positions.
pub open spec fn earliest(a: Option<int>, b: Option<int>) -> Option<int> {
    match (a, b) {
        (Some(i), Some(j)) => Some(if i <= j { i } else { j }),
        (Some(i), None) => Some(i),
        (None, b) => b,
    }
}

/// Where `s` is cut: the least position at which any of the stop strings
/// occurs (an empty stop string occurs at position 0), or none.
pub open spec fn first_stop_hit(s: Seq<char>, stops: Seq<Seq<char>>) -> Option<int>
    decreases stops.len(),
{
    if stops.len() == 0 {
        None
    } else {
        earliest(first_stop_hit(s, stops.drop_last()), find_first(s, stops.last()))
    }
}

/// No stop string occurs in `s`.
pub open spec fn free_of_stops(s: Seq<char>, stops: Seq<Seq<char>>) -> bool {
    forall|k: int, i: int| 0 <= k < stops.len() ==> !#[trigger] matches_at(s, stops[k], i)
}

/// A cut lies inside the text and starts an occurrence of a stop string, and
/// no stop string occurs anywhere before it; no cut means that no stop string
/// occurs.
pub proof fn lemma_first_stop_hit(s: Seq<char>, stops: Seq<Seq<char>>)
    ensures
        first_stop_hit(s, stops) matches Some(i) ==> 0 <= i <= s.len() && exists|k: int|
            0 <= k < stops.len() && matches_at(s, #[trigger] stops[k], i),
        first_stop_hit(s, stops) matches Some(i) ==> forall|k: int, j: int|
            0 <= k < stops.len() && j < i ==> !#[trigger] matches_at(s, stops[k], j),
        first_stop_hit(s, stops) is None ==> free_of_stops(s, stops),
    decreases stops.len(),
{
    if stops.len() > 0 {
        let init = stops.drop_last();
        let last = stops.last();
        lemma_find_from(s, last, 0);
        lemma_first_stop_hit(s, init);
        assert forall|k: int| 0 <= k < init.len() implies #[trigger] init[k] == stops[k] by {}
        assert(stops[stops.len() - 1] == last);
        let a = first_stop_hit(s, init);
        let b = find_first(s, last);
        if let Some(i) = first_stop_hit(s, stops) {
            if a is Some && a->0 == i {
                let k = choose|k: int| 0 <= k < init.len() && matches_at(s, #[trigger] init[k], i);
                assert(stops[k] == init[k]);
            } else {
                assert(matches_at(s, stops[stops.len() - 1], i));
            }
            assert forall|k: int, j: int| 0 <= k < stops.len() && j < i implies !#[trigger] matches_at(
                s,
                stops[k],
                j,
            ) by {
                if k < init.len() {
                    assert(stops[k] == init[k]);
                    if a is None {
                        assert(!matches_at(s, init[k], j));
                    }
                }
            }
        } else {
            assert forall|k: int, j: int| 0 <= k < stops.len() implies !#[trigger] matches_at(
                s,
                stops[k],
                j,
            ) by {
                if k < init.len() {
                    assert(stops[k] == init[k]);
                    assert(!matches_at(s, init[k], j));
                }
            }
        }
    }
}

/// The views of a list of character vectors.
pub open spec fn char_views(v: Seq<Vec<char>>) -> Seq<Seq<char>> {
    v.map_values(|x: Vec<char>| x@)
}

/// The least position at which any of the stop strings occurs in `s`.
fn first_stop_hit_exec(s: &[char], stops: &Vec<Vec<char>>) -> (r: Option<usize>)
    ensures
        match r {
            Some(i) => first_stop_hit(s@, char_views(stops@)) == Some(i as int),
            None => first_stop_hit(s@, char_views(stops@)) is None,
        },
{
    let ghost all = char_views(stops@);
    let mut best: Option<usize> = None;
    let mut k: usize = 0;
    assert(all.take(0) =~= Seq::<Seq<char>>::empty());
    while k < stops.len()
        invariant
            0 <= k <= stops@.len(),
            all == char_views(stops@),
            match best {
                Some(i) => first_stop_hit(s@, all.take(k as int)) == Some(i as int),
                None => first_stop_hit(s@, all.take(k as int)) is None,
            },
        decreases stops@.len() - k,
    {
        let ghost pre = all.take(k + 1);
        assert(pre.drop_last() =~= all.take(k as int));
        assert(pre.last() == stops@[k as int]@);
        let found = find_chars(s, stops[k].as_slice(), 0);
        best = match (best, found) {
            (Some(i), Some(j)) => Some(if i <= j { i } else { j }),
            (Some(i), None) => Some(i),
            (None, f) => f,
        };
        k = k + 1;
    }
    assert(all.take(stops@.len() as int) =~= all);
    best
}

/// `response` cut at the earliest place where any stop string occurs, and
/// whether a cut was made.
pub fn truncate_at_stop(response: String, stops: &Vec<String>) -> (r: (String, bool))
    ensures
        match first_stop_hit(response@, string_views(stops@)) {
            Some(i) => r.0@ == response@.take(i) && r.1,
            None => r.0@ == response@ && !r.1,
        },
{
    let text = chars_of(response.as_str());
    let mut cs: Vec<Vec<char>> = Vec::new();
    let mut k: usize = 0;
    while k < stops.len()
        invariant
            0 <= k <= stops@.len(),
            cs@.len() == k,
            forall|j: int| 0 <= j < k ==> (#[trigger] cs@[j])@ == stops@[j]@,
        decreases stops@.len() - k,
    {
        cs.push(chars_of(stops[k].as_str()));
        k = k + 1;
    }
    assert(char_views(cs@) =~= string_views(stops@));
    match first_stop_hit_exec(text.as_slice(), &cs) {
        Some(i) => {
            proof {
                lemma_first_stop_hit(text@, char_views(cs@));
            }
            (slice_string(text.as_slice(), 0, i), true)
        },
        None => (response, false),
    }
}

// ── Streaming ───────────────────────────────────────────────────────────────

/// The greatest number of bytes among the stop strings (zero for none).
pub open spec fn max_byte_len(stops: Seq<Seq<char>>) -> nat
    decreases stops.len(),
{
    if stops.len() == 0 {
        0
    } else {
        let rest = max_byte_len(stops.drop_last());
        let b = byte_len(stops.last());
        if b > rest {
            b
        } else {
            rest
        }
    }
}

/// What a stream scan has seen: all text so far, how many of its characters
/// were sent, and whether a stop string ended the stream.
pub struct ScanView {
    pub acc: Seq<char>,
    pub emitted: int,
    pub stopped: bool,
}

/// One token's worth of scanning: the state afterwards, the text to send (if
/// `sent`), and whether the step is defined (a byte cut inside a character
/// is not).
pub struct ScanStep {
    pub next: ScanView,
    pub piece: Seq<char>,
    pub sent: bool,
    pub defined: bool,
}

/// The scan of one more token `text`. With a stop string in the text so far,
/// what precedes it and was not yet sent is sent, and the scan stops.
/// Otherwise all but the last `maxb` bytes may be sent, and what of that was
/// not yet sent is.
pub open spec fn scan_step(v: ScanView, stops: Seq<Seq<char>>, maxb: nat, text: Seq<char>) -> ScanStep {
    let acc = v.acc + text;
    match first_stop_hit(acc, stops) {
        Some(idx) => ScanStep {
            next: ScanView { acc, emitted: v.emitted, stopped: true },
            piece: if idx > v.emitted {
                acc.subrange(v.emitted, idx)
            } else {
                Seq::empty()
            },
            sent: idx > v.emitted,
            defined: true,
        },
        None => {
            let total = byte_len(acc);
            if total > maxb && total - maxb > byte_len(acc.take(v.emitted)) {
                match cut_from_end(acc, maxb) {
                    Some(j) => ScanStep {
                        next: ScanView { acc, emitted: j, stopped: false },
                        piece: acc.subrange(v.emitted, j),
                        sent: true,
                        defined: true,
                    },
                    None => ScanStep {
                        next: ScanView { acc, emitted: v.emitted, stopped: false },
                        piece: Seq::empty(),
                        sent: false,
                        defined: false,
                    },
                }
            } else {
                ScanStep {
                    next: ScanView { acc, emitted: v.emitted, stopped: false },
                    piece: Seq::empty(),
                    sent: false,
                    defined: true,
                }
            }
        },
    }
}

/// What is left to send when the generator ends without a stop string.
pub open spec fn scan_rest(v: ScanView) -> Seq<char> {
    if !v.stopped && v.emitted < v.acc.len() {
        v.acc.subrange(v.emitted, v.acc.len() as int)
    } else {
        Seq::empty()
    }
}

/// A scan state is sound: the sent part lies within the text, and a scan that
/// has not stopped has seen no stop string in the text so far (an empty stop
/// string occurs even in empty text, and ends the scan at its first token).
pub open spec fn scan_wf(v: ScanView, stops: Seq<Seq<char>>) -> bool {
    &&& 0 <= v.emitted <= v.acc.len()
    &&& !v.stopped && v.acc.len() > 0 ==> free_of_stops(v.acc, stops)
}

/// Scanning a token keeps the state sound, and the text sent so far stays a
/// prefix of the text seen: one step extends it by exactly the piece sent.
pub proof fn lemma_scan_step(v: ScanView, stops: Seq<Seq<char>>, maxb: nat, text: Seq<char>)
    requires
        scan_wf(v, stops),
        !v.stopped,
        scan_step(v, stops, maxb, text).defined,
    ensures
        scan_wf(scan_step(v, stops, maxb, text).next, stops),
        scan_step(v, stops, maxb, text).next.acc == v.acc + text,
        scan_step(v, stops, maxb, text).next.acc.take(v.emitted) == v.acc.take(v.emitted),
        !scan_step(v, stops, maxb, text).next.stopped ==> v.acc.take(v.emitted) + scan_step(
            v,
            stops,
            maxb,
            text,
        ).piece == scan_step(v, stops, maxb, text).next.acc.take(
            scan_step(v, stops, maxb, text).next.emitted,
        ),
        scan_step(v, stops, maxb, text).next.stopped ==> (v.acc.take(v.emitted) + scan_step(
            v,
            stops,
            maxb,
            text,
        ).piece).is_prefix_of(scan_step(v, stops, maxb, text).next.acc),
{
    let acc = v.acc + text;
    let st = scan_step(v, stops, maxb, text);
    assert(acc.take(v.emitted) =~= v.acc.take(v.emitted));
    lemma_first_stop_hit(acc, stops);
    match first_stop_hit(acc, stops) {
        Some(idx) => {
            if idx > v.emitted {
                assert(v.acc.take(v.emitted) + acc.subrange(v.emitted, idx) =~= acc.take(idx));
            } else {
                assert(v.acc.take(v.emitted) + st.piece =~= acc.take(v.emitted));
            }
        },
        None => {
            let total = byte_len(acc);
            if total > maxb && total - maxb > byte_len(acc.take(v.emitted)) {
                lemma_cut_from_end(acc, maxb);
                let j = cut_from_end(acc, maxb)->0;
                lemma_prefix_byte_len_mono(acc, j, acc.len() as int);
                assert(acc.take(acc.len() as int) =~= acc);
                if j < v.emitted {
                    lemma_prefix_byte_len_mono(acc, j, v.emitted);
                }
                assert(v.acc.take(v.emitted) + acc.subrange(v.emitted, j) =~= acc.take(j));
            } else {
                assert(v.acc.take(v.emitted) + st.piece =~= acc.take(v.emitted));
            }
        },
    }
}

/// The concatenation of a list of token texts.
pub open spec fn flatten(toks: Seq<Seq<char>>) -> Seq<char>
    decreases toks.len(),
{
    if toks.len() == 0 {
        Seq::empty()
    } else {
        toks[0] + flatten(toks.drop_first())
    }
}

/// Scanning a list of tokens: the final state, everything sent, and whether
/// every step was defined. Tokens after a stop are not scanned.
pub open spec fn scan_all(v: ScanView, stops: Seq<Seq<char>>, maxb: nat, toks: Seq<Seq<char>>) -> (
    ScanView,
    Seq<char>,
    bool,
)
    decreases toks.len(),
{
    if toks.len() == 0 || v.stopped {
        (v, Seq::empty(), true)
    } else {
        let st = scan_step(v, stops, maxb, toks[0]);
        let rest = scan_all(st.next, stops, maxb, toks.drop_first());
        (rest.0, st.piece + rest.1, st.defined && rest.2)
    }
}

/// The scan of a fresh stream.
pub open spec fn scan_start() -> ScanView {
    ScanView { acc: Seq::empty(), emitted: 0, stopped: false }
}

/// What the stream sends is exactly what was generated, when no stop string
/// shows up: the pieces sent while scanning and the rest sent at the end make
/// up the concatenation of the tokens, with nothing lost, repeated or
/// reordered. When a stop string ends the stream, what was sent is a prefix of
/// the text generated. Either way, everything sent before the end contained no
/// stop string.
pub proof fn lemma_stream_reassembles(stops: Seq<Seq<char>>, maxb: nat, toks: Seq<Seq<char>>)
    requires
        scan_all(scan_start(), stops, maxb, toks).2,
    ensures
        !scan_all(scan_start(), stops, maxb, toks).0.stopped ==> scan_all(
            scan_start(),
            stops,
            maxb,
            toks,
        ).1 + scan_rest(scan_all(scan_start(), stops, maxb, toks).0) == flatten(toks),
        scan_all(scan_start(), stops, maxb, toks).0.stopped ==> scan_all(
            scan_start(),
            stops,
            maxb,
            toks,
        ).1.is_prefix_of(flatten(toks)),
        !scan_all(scan_start(), stops, maxb, toks).0.stopped && flatten(toks).len() > 0
            ==> free_of_stops(flatten(toks), stops),
{
    let v = scan_start();
    assert(v.acc.take(0) =~= Seq::<char>::empty());
    lemma_scan_all(v, stops, maxb, toks);
    assert(v.acc + flatten(toks) =~= flatten(toks));
    let r = scan_all(v, stops, maxb, toks);
    if !r.0.stopped {
        assert(r.0.acc.take(r.0.emitted) + r.0.acc.subrange(r.0.emitted, r.0.acc.len() as int)
            =~= r.0.acc);
        if r.0.emitted == r.0.acc.len() {
            assert(r.0.acc.take(r.0.emitted) =~= r.0.acc);
        }
        assert(Seq::<char>::empty() + r.1 =~= r.1);
    } else {
        assert(Seq::<char>::empty() + r.1 =~= r.1);
    }
}

/// Every stop string takes at most `maxb` bytes.
pub open spec fn stops_fit(stops: Seq<Seq<char>>, maxb: nat) -> bool {
    forall|k: int| 0 <= k < stops.len() ==> byte_len(#[trigger] stops[k]) <= maxb
}

/// What was sent holds back at least `maxb` bytes of the text seen.
pub open spec fn held_back(v: ScanView, maxb: nat) -> bool {
    v.emitted == 0 || byte_len(v.acc.take(v.emitted)) + maxb <= byte_len(v.acc)
}

/// A scan step keeps `maxb` bytes held back; and the step that meets a stop
/// string has sent nothing of it, so that what was sent is then exactly the
/// text before the earliest stop.
proof fn lemma_scan_step_held(v: ScanView, stops: Seq<Seq<char>>, maxb: nat, text: Seq<char>)
    requires
        scan_wf(v, stops),
        !v.stopped,
        scan_step(v, stops, maxb, text).defined,
        held_back(v, maxb),
        stops_fit(stops, maxb),
    ensures
        !scan_step(v, stops, maxb, text).next.stopped ==> held_back(
            scan_step(v, stops, maxb, text).next,
            maxb,
        ),
        scan_step(v, stops, maxb, text).next.stopped ==> (first_stop_hit(v.acc + text, stops) matches Some(
            i,
        ) && v.emitted <= i && v.acc.take(v.emitted) + scan_step(v, stops, maxb, text).piece == (v.acc
            + text).take(i)),
{
    let a = v.acc;
    let acc = a + text;
    let e = v.emitted;
    let st = scan_step(v, stops, maxb, text);
    assert(acc.take(a.len() as int) =~= a);
    assert(acc.take(acc.len() as int) =~= acc);
    assert(acc.take(e) =~= a.take(e));
    lemma_prefix_byte_len_mono(acc, a.len() as int, acc.len() as int);
    lemma_first_stop_hit(acc, stops);
    match first_stop_hit(acc, stops) {
        Some(i) => {
            let k = choose|k: int| 0 <= k < stops.len() && matches_at(acc, #[trigger] stops[k], i);
            let p = stops[k];
            if e > 0 {
                assert(a.len() > 0);
                if i + p.len() <= a.len() {
                    assert(a.subrange(i, i + p.len()) =~= acc.subrange(i, i + p.len()));
                    assert(matches_at(a, stops[k], i));
                    assert(false);
                }
                assert(acc.take(i + p.len()) =~= acc.take(i) + p) by {
                    assert(acc.subrange(i, i + p.len()) == p);
                }
                crate::text::lemma_byte_len_concat(acc.take(i), p);
                lemma_prefix_byte_len_mono(acc, a.len() as int, i + p.len());
                if e > i {
                    lemma_prefix_byte_len_mono(acc, i, e);
                    assert(false);
                }
            }
            if e < i {
                assert(a.take(e) + acc.subrange(e, i) =~= acc.take(i));
            } else {
                assert(a.take(e) + st.piece =~= acc.take(i));
            }
        },
        None => {
            let total = byte_len(acc);
            if total > maxb && total - maxb > byte_len(acc.take(e)) {
                lemma_cut_from_end(acc, maxb);
                let j = cut_from_end(acc, maxb)->0;
                lemma_prefix_byte_len_mono(acc, j, acc.len() as int);
            }
        },
    }
}

proof fn lemma_scan_all_held(v: ScanView, stops: Seq<Seq<char>>, maxb: nat, toks: Seq<Seq<char>>)
    requires
        scan_wf(v, stops),
        !v.stopped,
        held_back(v, maxb),
        stops_fit(stops, maxb),
        scan_all(v, stops, maxb, toks).2,
    ensures
        scan_all(v, stops, maxb, toks).0.stopped ==> (first_stop_hit(
            scan_all(v, stops, maxb, toks).0.acc,
            stops,
        ) matches Some(i) && v.acc.take(v.emitted) + scan_all(v, stops, maxb, toks).1 == scan_all(
            v,
            stops,
            maxb,
            toks,
        ).0.acc.take(i) && scan_all(v, stops, maxb, toks).0.acc.is_prefix_of(
            v.acc + flatten(toks),
        )),
    decreases toks.len(),
{
    if toks.len() > 0 {
        let st = scan_step(v, stops, maxb, toks[0]);
        lemma_scan_step(v, stops, maxb, toks[0]);
        lemma_scan_step_held(v, stops, maxb, toks[0]);
        let rest = scan_all(st.next, stops, maxb, toks.drop_first());
        assert(flatten(toks) == toks[0] + flatten(toks.drop_first()));
        assert(v.acc + flatten(toks) =~= st.next.acc + flatten(toks.drop_first()));
        assert(st.next.acc.is_prefix_of(st.next.acc + flatten(toks.drop_first()))) by {
            assert((st.next.acc + flatten(toks.drop_first())).take(st.next.acc.len() as int)
                =~= st.next.acc);
        }
        if st.next.stopped {
            assert(st.piece + rest.1 =~= st.piece);
        } else {
            lemma_scan_all_held(st.next, stops, maxb, toks.drop_first());
            let sent0 = v.acc.take(v.emitted);
            assert(sent0 + (st.piece + rest.1) =~= (sent0 + st.piece) + rest.1);
        }
    }
}

/// Every stop string fits in the hold-back of the longest one.
pub proof fn lemma_max_byte_len_fits(stops: Seq<Seq<char>>)
    ensures
        stops_fit(stops, max_byte_len(stops)),
    decreases stops.len(),
{
    if stops.len() > 0 {
        lemma_max_byte_len_fits(stops.drop_last());
        assert forall|k: int| 0 <= k < stops.len() implies byte_len(#[trigger] stops[k])
            <= max_byte_len(stops) by {
            if k < stops.len() - 1 {
                assert(stops[k] == stops.drop_last()[k]);
            }
        }
    }
}

/// A stream that a stop string ended sent exactly the text before the
/// earliest stop string in what was generated up to then, so no part of a
/// stop string is ever sent, when every stop string fits in the held-back
/// bytes (as it does with `max_byte_len`).
pub proof fn lemma_stream_stops_before_stop(stops: Seq<Seq<char>>, maxb: nat, toks: Seq<Seq<char>>)
    requires
        scan_all(scan_start(), stops, maxb, toks).2,
        stops_fit(stops, maxb),
    ensures
        scan_all(scan_start(), stops, maxb, toks).0.stopped ==> (first_stop_hit(
            scan_all(scan_start(), stops, maxb, toks).0.acc,
            stops,
        ) matches Some(i) && scan_all(scan_start(), stops, maxb, toks).1 == scan_all(
            scan_start(),
            stops,
            maxb,
            toks,
        ).0.acc.take(i) && scan_all(scan_start(), stops, maxb, toks).0.acc.is_prefix_of(
            flatten(toks),
        )),
{
    let v = scan_start();
    assert(v.acc.take(0) =~= Seq::<char>::empty());
    lemma_scan_all_held(v, stops, maxb, toks);
    assert(v.acc + flatten(toks) =~= flatten(toks));
    let r = scan_all(v, stops, maxb, toks);
    assert(Seq::<char>::empty() + r.1 =~= r.1);
}

/// The scan keeps the sent text a prefix of the text seen (all of which is the
/// text so far followed by the remaining tokens, up to a stop).
proof fn lemma_scan_all(v: ScanView, stops: Seq<Seq<char>>, maxb: nat, toks: Seq<Seq<char>>)
    requires
        scan_wf(v, stops),
        scan_all(v, stops, maxb, toks).2,
    ensures
        scan_wf(scan_all(v, stops, maxb, toks).0, stops),
        !scan_all(v, stops, maxb, toks).0.stopped ==> !v.stopped && scan_all(
            v,
            stops,
            maxb,
            toks,
        ).0.acc == v.acc + flatten(toks) && v.acc.take(v.emitted) + scan_all(
            v,
            stops,
            maxb,
            toks,
        ).1 == scan_all(v, stops, maxb, toks).0.acc.take(scan_all(v, stops, maxb, toks).0.emitted),
        scan_all(v, stops, maxb, toks).0.stopped && !v.stopped ==> (v.acc.take(v.emitted)
            + scan_all(v, stops, maxb, toks).1).is_prefix_of(v.acc + flatten(toks)),
    decreases toks.len(),
{
    if toks.len() == 0 || v.stopped {
        assert(v.acc.take(v.emitted) + Seq::<char>::empty() =~= v.acc.take(v.emitted));
        if toks.len() == 0 {
            assert(v.acc + flatten(toks) =~= v.acc);
        }
    } else {
        let st = scan_step(v, stops, maxb, toks[0]);
        lemma_scan_step(v, stops, maxb, toks[0]);
        lemma_scan_all(st.next, stops, maxb, toks.drop_first());
        let rest = scan_all(st.next, stops, maxb, toks.drop_first());
        assert(flatten(toks) == toks[0] + flatten(toks.drop_first()));
        assert(v.acc + flatten(toks) =~= st.next.acc + flatten(toks.drop_first()));
        let sent0 = v.acc.take(v.emitted);
        assert(sent0 + (st.piece + rest.1) =~= (sent0 + st.piece) + rest.1);
        if st.next.stopped {
            assert(rest.1 =~= Seq::<char>::empty());
            assert((sent0 + st.piece) + rest.1 =~= sent0 + st.piece);
            let p = sent0 + st.piece;
            assert(p.is_prefix_of(st.next.acc));
            assert(st.next.acc.is_prefix_of(st.next.acc + flatten(toks.drop_first()))) by {
                assert((st.next.acc + flatten(toks.drop_first())).take(st.next.acc.len() as int)
                    =~= st.next.acc);
            }
            assert(p.is_prefix_of(v.acc + flatten(toks))) by {
                let w = v.acc + flatten(toks);
                assert(w.take(p.len() as int) =~= st.next.acc.take(p.len() as int));
            }
        } else if rest.0.stopped {
            let p = sent0 + st.piece;
            let q = p + rest.1;
            assert(q.is_prefix_of(v.acc + flatten(toks)));
        }
    }
}

/// A stream scan: the stop strings, the bytes held back, the text seen so far,
/// how many of its characters were sent, and whether a stop string ended it.
pub struct StopStreamer {
    stops: Vec<Vec<char>>,
    max_stop_bytes: usize,
    accumulated: Vec<char>,
    emitted: usize,
    stopped: bool,
}

impl View for StopStreamer {
    type V = ScanView;

    closed spec fn view(&self) -> ScanView {
        ScanView { acc: self.accumulated@, emitted: self.emitted as int, stopped: self.stopped }
    }
}

impl StopStreamer {
    /// The stop strings the scan looks for.
    pub closed spec fn stop_list(&self) -> Seq<Seq<char>> {
        char_views(self.stops@)
    }

    /// The number of bytes held back.
    pub closed spec fn held_bytes(&self) -> nat {
        self.max_stop_bytes as nat
    }

    /// The scan is sound and holds back as many bytes as the longest stop
    /// string has.
    pub closed spec fn wf(&self) -> bool {
        &&& scan_wf(self@, self.stop_list())
        &&& self.held_bytes() == max_byte_len(self.stop_list())
    }

    /// A fresh scan for the given stop strings.
    pub fn new(stops: &Vec<String>) -> (r: Self)
        ensures
            r.wf(),
            r@ == scan_start(),
            r.stop_list() == string_views(stops@),
            r.held_bytes() == max_byte_len(string_views(stops@)),
    {
        let mut cs: Vec<Vec<char>> = Vec::new();
        let mut maxb: usize = 0;
        let mut k: usize = 0;
        while k < stops.len()
            invariant
                0 <= k <= stops@.len(),
                cs@.len() == k,
                forall|j: int| 0 <= j < k ==> (#[trigger] cs@[j])@ == stops@[j]@,
                maxb == max_byte_len(string_views(stops@).take(k as int)),
            decreases stops@.len() - k,
        {
            let b = str_byte_len(stops[k].as_str());
            proof {
                let t = string_views(stops@).take(k + 1);
                assert(t.drop_last() =~= string_views(stops@).take(k as int));
                assert(t.last() == stops@[k as int]@);
            }
            if b > maxb {
                maxb = b;
            }
            cs.push(chars_of(stops[k].as_str()));
            k = k + 1;
        }
        assert(char_views(cs@) =~= string_views(stops@));
        assert(string_views(stops@).take(k as int) =~= string_views(stops@));
        let r = StopStreamer {
            stops: cs,
            max_stop_bytes: maxb,
            accumulated: Vec::new(),
            emitted: 0,
            stopped: false,
        };
        assert(r@.acc =~= Seq::<char>::empty());
        r
    }

    /// A stop string ended the stream.
    pub fn is_stopped(&self) -> (r: bool)
        ensures
            r == self@.stopped,
    {
        self.stopped
    }

    /// Whether scanning `text` next is defined: whether the byte offset up to
    /// which text may be sent falls on a character boundary when it is used.
    pub fn push_defined(&self, text: &str) -> (r: bool)
        requires
            self.wf(),
        ensures
            r == scan_step(self@, self.stop_list(), self.held_bytes(), text@).defined,
    {
        let mut acc = self.accumulated.clone();
        let t = chars_of(text);
        let mut i: usize = 0;
        while i < t.len()
            invariant
                0 <= i <= t@.len(),
                acc@ == self.accumulated@ + t@.take(i as int),
            decreases t@.len() - i,
        {
            acc.push(t[i]);
            assert(acc@ =~= self.accumulated@ + t@.take(i + 1));
            i = i + 1;
        }
        assert(t@.take(i as int) =~= t@);
        match first_stop_hit_exec(acc.as_slice(), &self.stops) {
            Some(_) => true,
            None => {
                let total = byte_len_exec(acc.as_slice());
                let maxb = self.max_stop_bytes as u128;
                if total > maxb && total - maxb > prefix_byte_len(acc.as_slice(), self.emitted) {
                    cut_from_end_exec(acc.as_slice(), self.max_stop_bytes).is_some()
                } else {
                    true
                }
            },
        }
    }

    /// Scans the next token `text`, and gives the text to send now, if any.
    pub fn push(&mut self, text: &str) -> (r: Option<String>)
        requires
            old(self).wf(),
            !old(self)@.stopped,
            scan_step(old(self)@, old(self).stop_list(), old(self).held_bytes(), text@).defined,
        ensures
            final(self).wf(),
            final(self).stop_list() == old(self).stop_list(),
            final(self).held_bytes() == old(self).held_bytes(),
            final(self)@ == scan_step(
                old(self)@,
                old(self).stop_list(),
                old(self).held_bytes(),
                text@,
            ).next,
            match r {
                Some(p) => scan_step(
                    old(self)@,
                    old(self).stop_list(),
                    old(self).held_bytes(),
                    text@,
                ).sent && p@ == scan_step(
                    old(self)@,
                    old(self).stop_list(),
                    old(self).held_bytes(),
                    text@,
                ).piece,
                None => !scan_step(
                    old(self)@,
                    old(self).stop_list(),
                    old(self).held_bytes(),
                    text@,
                ).sent,
            },
    {
        let ghost v0 = self@;
        let ghost stops = self.stop_list();
        let ghost maxb = self.held_bytes();
        proof {
            lemma_scan_step(v0, stops, maxb, text@);
        }
        let t = chars_of(text);
        let mut i: usize = 0;
        while i < t.len()
            invariant
                0 <= i <= t@.len(),
                self.accumulated@ == v0.acc + t@.take(i as int),
                self.emitted == v0.emitted,
                self.stopped == v0.stopped,
                self.stops == old(self).stops,
                self.max_stop_bytes == old(self).max_stop_bytes,
            decreases t@.len() - i,
        {
            self.accumulated.push(t[i]);
            assert(self.accumulated@ =~= v0.acc + t@.take(i + 1));
            i = i + 1;
        }
        assert(t@.take(i as int) =~= t@);
        let ghost acc = self.accumulated@;
        match first_stop_hit_exec(self.accumulated.as_slice(), &self.stops) {
            Some(idx) => {
                proof {
                    lemma_first_stop_hit(acc, stops);
                }
                self.stopped = true;
                if idx > self.emitted {
                    Some(slice_string(self.accumulated.as_slice(), self.emitted, idx))
                } else {
                    None
                }
            },
            None => {
                let total = byte_len_exec(self.accumulated.as_slice());
                let maxb_u = self.max_stop_bytes as u128;
                if total > maxb_u && total - maxb_u > prefix_byte_len(
                    self.accumulated.as_slice(),
                    self.emitted,
                ) {
                    match cut_from_end_exec(self.accumulated.as_slice(), self.max_stop_bytes) {
                        Some(j) => {
                            proof {
                                lemma_cut_from_end(acc, maxb);
                                lemma_prefix_byte_len_mono(acc, j as int, acc.len() as int);
                                assert(acc.take(acc.len() as int) =~= acc);
                                if (j as int) < v0.emitted {
                                    lemma_prefix_byte_len_mono(acc, j as int, v0.emitted);
                                }
                            }
                            let piece = slice_string(self.accumulated.as_slice(), self.emitted, j);
                            self.emitted = j;
                            Some(piece)
                        },
                        None => None,
                    }
                } else {
                    None
                }
            },
        }
    }

    /// The text still to send when the generator ends: all that was held
    /// back, unless a stop string ended the stream.
    pub fn flush(&self) -> (r: Option<String>)
        requires
            self.wf(),
        ensures
            match r {
                Some(p) => !self@.stopped && self@.emitted < self@.acc.len() && p@ == scan_rest(
                    self@,
                ),
                None => scan_rest(self@).len() == 0,
            },
    {
        if !self.stopped && self.emitted < self.accumulated.len() {
            Some(slice_string(self.accumulated.as_slice(), self.emitted, self.accumulated.len()))
        } else {
            None
        }
    }
}

} // verus!
