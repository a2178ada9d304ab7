//! Fill-in-the-middle: which model to load, the prompt, and the trimming of
//! the generated middle at the caller's stop strings and the usual end-of-fill
//! markers.

use vstd::prelude::*;
use crate::text::{chars_of, extend_from, find_chars, find_first, lemma_find_from, matches_at, owned, slice_vec, string_of};
use crate::lm::models::string_views;

verus! {

/// A cross-file context snippet.
pub struct ExtraContext {
    pub filename: String,
    pub text: String,
}

/// Token counts of a fill.
pub struct InfillUsage {
    pub prompt_tokens: usize,
    pub completion_tokens: usize,
    pub total_tokens: usize,
}

/// A fill's answer.
pub struct InfillResponse {
    pub model: String,
    pub content: String,
    pub usage: InfillUsage,
}

/// The markers after which no filled text is kept.
pub open spec fn end_markers() -> Seq<Seq<char>> {
    seq!["<|fim_end|>"@, "<fim_middle>"@, "</s>"@, "<|endoftext|>"@, "<EOT>"@]
}

/// `s` cut at the first occurrence of each stop in turn.
pub open spec fn cut_each(s: Seq<char>, stops: Seq<Seq<char>>) -> Seq<char>
    decreases stops.len(),
{
    if stops.len() == 0 {
        s
    } else {
        let t = cut_each(s, stops.drop_last());
        match find_first(t, stops.last()) {
            Some(i) => t.take(i),
            None => t,
        }
    }
}

/// The generated middle cut at the caller's stop strings and then at the
/// end-of-fill markers, each at its first occurrence in what is left.
pub open spec fn trimmed_fill(s: Seq<char>, stops: Seq<Seq<char>>) -> Seq<char> {
    cut_each(s, stops + end_markers())
}

/// An occurrence in a prefix of `s` is an occurrence in `s`.
proof fn lemma_match_in_prefix(s: Seq<char>, n: int, p: Seq<char>, x: int)
    requires
        0 <= n <= s.len(),
        matches_at(s.take(n), p, x),
    ensures
        matches_at(s, p, x),
        x + p.len() <= n,
{
    assert(s.take(n).subrange(x, x + p.len()) =~= s.subrange(x, x + p.len()));
}

/// Cutting at each stop in turn keeps a prefix of `s` that holds no
/// occurrence of any (non-empty) stop, and it cuts only where a stop occurs
/// in `s`.
proof fn lemma_cut_each(s: Seq<char>, stops: Seq<Seq<char>>)
    ensures
        cut_each(s, stops).len() <= s.len(),
        cut_each(s, stops) == s.take(cut_each(s, stops).len() as int),
        forall|k: int, x: int|
            0 <= k < stops.len() && stops[k].len() > 0 ==> !#[trigger] matches_at(
                cut_each(s, stops),
                stops[k],
                x,
            ),
        cut_each(s, stops).len() < s.len() ==> exists|k: int|
            0 <= k < stops.len() && #[trigger] matches_at(s, stops[k], cut_each(s, stops).len() as int),
    decreases stops.len(),
{
    if stops.len() == 0 {
        assert(s.take(s.len() as int) =~= s);
    } else {
        let init = stops.drop_last();
        let p = stops.last();
        lemma_cut_each(s, init);
        let t = cut_each(s, init);
        let n = t.len() as int;
        assert forall|k: int| 0 <= k < init.len() implies #[trigger] init[k] == stops[k] by {}
        assert(stops[stops.len() - 1] == p);
        lemma_find_from(t, p, 0);
        match find_first(t, p) {
            Some(i) => {
                let r = t.take(i);
                assert(r =~= s.take(i));
                assert forall|k: int, x: int|
                    0 <= k < stops.len() && stops[k].len() > 0 implies !#[trigger] matches_at(
                    r,
                    stops[k],
                    x,
                ) by {
                    if matches_at(r, stops[k], x) {
                        lemma_match_in_prefix(t, i, stops[k], x);
                        if k < init.len() {
                            assert(matches_at(t, init[k], x));
                        } else {
                            assert(x < i);
                        }
                    }
                }
                if i < s.len() {
                    lemma_match_in_prefix(s, n, p, i);
                    assert(matches_at(s, stops[stops.len() - 1], i));
                }
            },
            None => {
                assert forall|k: int, x: int|
                    0 <= k < stops.len() && stops[k].len() > 0 implies !#[trigger] matches_at(
                    t,
                    stops[k],
                    x,
                ) by {
                    if k < init.len() {
                        assert(!matches_at(t, init[k], x));
                    } else {
                        assert(!matches_at(t, p, x));
                    }
                }
                if n < s.len() {
                    let k = choose|k: int| 0 <= k < init.len() && #[trigger] matches_at(s, init[k], n);
                    assert(matches_at(s, stops[k], n));
                }
            },
        }
    }
}

/// What a fill keeps: a prefix of the generated middle that holds none of
/// the caller's (non-empty) stop strings and none of the end-of-fill markers;
/// when it is shorter than the middle, one of them occurs in the middle
/// exactly where it was cut.
pub proof fn lemma_trimmed_fill(s: Seq<char>, stops: Seq<Seq<char>>)
    ensures
        trimmed_fill(s, stops).len() <= s.len(),
        trimmed_fill(s, stops) == s.take(trimmed_fill(s, stops).len() as int),
        forall|k: int, x: int|
            0 <= k < stops.len() && stops[k].len() > 0 ==> !#[trigger] matches_at(
                trimmed_fill(s, stops),
                stops[k],
                x,
            ),
        forall|k: int, x: int|
            0 <= k < end_markers().len() ==> !#[trigger] matches_at(
                trimmed_fill(s, stops),
                end_markers()[k],
                x,
            ),
        trimmed_fill(s, stops).len() < s.len() ==> (exists|k: int|
            0 <= k < stops.len() && #[trigger] matches_at(s, stops[k], trimmed_fill(s, stops).len() as int))
            || (exists|k: int|
            0 <= k < end_markers().len() && #[trigger] matches_at(
                s,
                end_markers()[k],
                trimmed_fill(s, stops).len() as int,
            )),
{
    let all = stops + end_markers();
    lemma_cut_each(s, all);
    reveal_strlit("<|fim_end|>");
    reveal_strlit("<fim_middle>");
    reveal_strlit("</s>");
    reveal_strlit("<|endoftext|>");
    reveal_strlit("<EOT>");
    assert forall|k: int| 0 <= k < stops.len() implies #[trigger] all[k] == stops[k] by {}
    assert forall|k: int| 0 <= k < end_markers().len() implies #[trigger] all[stops.len() + k]
        == end_markers()[k] && end_markers()[k].len() > 0 by {}
    assert forall|k: int, x: int|
        0 <= k < end_markers().len() implies !#[trigger] matches_at(
        trimmed_fill(s, stops),
        end_markers()[k],
        x,
    ) by {
        assert(all[stops.len() + k] == end_markers()[k]);
        assert(!matches_at(trimmed_fill(s, stops), all[stops.len() + k], x));
    }
    assert forall|k: int, x: int|
        0 <= k < stops.len() && stops[k].len() > 0 implies !#[trigger] matches_at(
        trimmed_fill(s, stops),
        stops[k],
        x,
    ) by {
        assert(all[k] == stops[k]);
        assert(!matches_at(trimmed_fill(s, stops), all[k], x));
    }
    let n = trimmed_fill(s, stops).len() as int;
    if n < s.len() {
        let k = choose|k: int| 0 <= k < all.len() && #[trigger] matches_at(s, all[k], n);
        if k < stops.len() {
            assert(matches_at(s, stops[k], n));
        } else {
            assert(all[k] == end_markers()[k - stops.len()]);
            assert(matches_at(s, end_markers()[k - stops.len()], n));
        }
    }
}

/// The middle cut at the caller's stop strings and the end markers (see
/// `trimmed_fill`).
pub fn trim_fill(content: &str, stops: &Vec<String>) -> (r: String)
    ensures
        r@ == trimmed_fill(content@, string_views(stops@)),
{
    let mut all: Vec<String> = Vec::new();
    let mut k: usize = 0;
    while k < stops.len()
        invariant
            0 <= k <= stops@.len(),
            string_views(all@) == string_views(stops@).take(k as int),
        decreases stops@.len() - k,
    {
        let ghost prev = all@;
        let s = stops[k].clone();
        all.push(s);
        assert(string_views(all@) =~= string_views(prev).push(s@));
        assert(string_views(stops@).take(k + 1) =~= string_views(stops@).take(k as int).push(
            stops@[k as int]@,
        ));
        k = k + 1;
    }
    assert(string_views(stops@).take(k as int) =~= string_views(stops@));
    let ghost sv = string_views(all@);
    all.push(owned("<|fim_end|>"));
    all.push(owned("<fim_middle>"));
    all.push(owned("</s>"));
    all.push(owned("<|endoftext|>"));
    all.push(owned("<EOT>"));
    assert(string_views(all@) =~= sv + end_markers());
    let mut cur = chars_of(content);
    let mut i: usize = 0;
    assert(string_views(all@).take(0) =~= Seq::<Seq<char>>::empty());
    while i < all.len()
        invariant
            0 <= i <= all@.len(),
            cur@ == cut_each(content@, string_views(all@).take(i as int)),
        decreases all@.len() - i,
    {
        let p = chars_of(all[i].as_str());
        assert(string_views(all@).take(i + 1).drop_last() =~= string_views(all@).take(i as int));
        assert(string_views(all@).take(i + 1).last() == all@[i as int]@);
        match find_chars(cur.as_slice(), p.as_slice(), 0) {
            Some(j) => {
                proof {
                    lemma_find_from(cur@, p@, 0);
                }
                let t = slice_vec(cur.as_slice(), 0, j);
                assert(t@ =~= cur@.take(j as int));
                cur = t;
            },
            None => {},
        }
        i = i + 1;
    }
    assert(string_views(all@).take(i as int) =~= string_views(all@));
    string_of(cur.as_slice())
}

/// The special tokens of a fill-in-the-middle prompt, as the tokenizer names them.
pub struct FimTokens {
    pub prefix: String,
    pub suffix: String,
    pub middle: String,
}

/// The cross-file context, each snippet as its file name and text on lines of
/// their own.
pub open spec fn extra_text(extra: Seq<ExtraContext>) -> Seq<char>
    decreases extra.len(),
{
    if extra.len() == 0 {
        Seq::empty()
    } else {
        extra_text(extra.drop_last()) + extra.last().filename@ + seq!['\n'] + extra.last().text@
            + seq!['\n']
    }
}

/// A fill-in-the-middle prompt: the context, then the prefix and the suffix
/// each after its token, then the token after which the middle is generated.
pub open spec fn fim_text(
    t: FimTokens,
    prefix: Seq<char>,
    suffix: Seq<char>,
    extra: Seq<ExtraContext>,
) -> Seq<char> {
    extra_text(extra) + t.prefix@ + prefix + t.suffix@ + suffix + t.middle@
}

/// Appends all of `s`.
fn append_all(out: &mut Vec<char>, s: &str)
    ensures
        final(out)@ == old(out)@ + s@,
{
    let cs = chars_of(s);
    extend_from(out, cs.as_slice(), 0, cs.len());
    assert(cs@.subrange(0, cs@.len() as int) =~= cs@);
}

/// The fill-in-the-middle prompt of a request (see `fim_text`).
pub fn fim_prompt(tokens: &FimTokens, prefix: &str, suffix: &str, extra: &Vec<ExtraContext>) -> (r: String)
    ensures
        r@ == fim_text(*tokens, prefix@, suffix@, extra@),
{
    let mut out: Vec<char> = Vec::new();
    let mut i: usize = 0;
    while i < extra.len()
        invariant
            0 <= i <= extra@.len(),
            out@ == extra_text(extra@.take(i as int)),
        decreases extra@.len() - i,
    {
        let ghost before = out@;
        append_all(&mut out, extra[i].filename.as_str());
        out.push('\n');
        append_all(&mut out, extra[i].text.as_str());
        out.push('\n');
        assert(extra@.take(i + 1).drop_last() =~= extra@.take(i as int));
        assert(extra@.take(i + 1).last() == extra@[i as int]);
        assert(out@ =~= before + extra@[i as int].filename@ + seq!['\n'] + extra@[i as int].text@
            + seq!['\n']);
        i = i + 1;
    }
    assert(extra@.take(i as int) =~= extra@);
    append_all(&mut out, tokens.prefix.as_str());
    append_all(&mut out, prefix);
    append_all(&mut out, tokens.suffix.as_str());
    append_all(&mut out, suffix);
    append_all(&mut out, tokens.middle.as_str());
    string_of(out.as_slice())
}

/// Why a fill was refused.
pub enum InfillError {
    /// No model is loaded and the request names none.
    NoModel,
}

/// The model to load for a fill when none is loaded: the one the request names,
/// refused when it names none or an empty one.
pub fn infill_model_to_load(model: &Option<String>) -> (r: Result<String, InfillError>)
    ensures
        match r {
            Ok(m) => model matches Some(x) && x@.len() > 0 && m@ == x@,
            Err(_) => model is None || model->0@.len() == 0,
        },
{
    match model {
        Some(m) => {
            if m.as_str().is_empty() {
                Err(InfillError::NoModel)
            } else {
                Ok(m.clone())
            }
        },
        None => Err(InfillError::NoModel),
    }
}

} // verus!
