//! Preparing a conversation for the model: folding system messages into the
//! first user turn, the sliding window that keeps the most recent turns within
//! a token budget, the plain-text prompt used when the tokenizer has no chat
//! template, the stable prefix of a conversation, and the segments between
//! tool-call delimiters in a response.

use vstd::prelude::*;
use crate::text::{chars_of, concat2, find_chars, find_from, lemma_find_from, owned, str_eq, string_of, extend_from};
use crate::lm::models::{content_text, messages_view, ChatMessage, MessageView};

verus! {

// ── Joining ─────────────────────────────────────────────────────────────────

/// The parts joined with `sep` between neighbours (std `join`).
pub open spec fn join(parts: Seq<Seq<char>>, sep: Seq<char>) -> Seq<char>
    decreases parts.len(),
{
    if parts.len() == 0 {
        Seq::empty()
    } else if parts.len() == 1 {
        parts[0]
    } else {
        join(parts.drop_last(), sep) + sep + parts.last()
    }
}

/// The views of a list of strings.
pub open spec fn views(v: Seq<String>) -> Seq<Seq<char>> {
    v.map_values(|s: String| s@)
}

/// The strings joined with `sep` between neighbours.
pub fn join_strings(parts: &Vec<String>, sep: &str) -> (r: String)
    ensures
        r@ == join(views(parts@), sep@),
{
    let mut out: Vec<char> = Vec::new();
    let s = chars_of(sep);
    let mut i: usize = 0;
    while i < parts.len()
        invariant
            0 <= i <= parts@.len(),
            s@ == sep@,
            out@ == join(views(parts@).take(i as int), sep@),
        decreases parts@.len() - i,
    {
        let p = chars_of(parts[i].as_str());
        let ghost before = out@;
        assert(views(parts@).take(i + 1).drop_last() =~= views(parts@).take(i as int));
        assert(views(parts@).take(i + 1).last() == parts@[i as int]@);
        if i > 0 {
            extend_from(&mut out, s.as_slice(), 0, s.len());
            assert(s@.subrange(0, s@.len() as int) =~= s@);
        }
        extend_from(&mut out, p.as_slice(), 0, p.len());
        assert(p@.subrange(0, p@.len() as int) =~= p@);
        if i == 0 {
            assert(out@ =~= views(parts@).take(1)[0]);
        }
        i = i + 1;
    }
    assert(views(parts@).take(i as int) =~= views(parts@));
    string_of(out.as_slice())
}

// ── Preparing messages ──────────────────────────────────────────────────────

/// A message as handed to the chat template: role and text.
pub struct PreparedMessage {
    pub role: String,
    pub content: String,
}

/// The role and text of a prepared message.
pub open spec fn prepared_view(p: PreparedMessage) -> (Seq<char>, Seq<char>) {
    (p.role@, p.content@)
}

/// The views of prepared messages.
pub open spec fn prepared_views(ps: Seq<PreparedMessage>) -> Seq<(Seq<char>, Seq<char>)> {
    ps.map_values(|p: PreparedMessage| prepared_view(p))
}

/// A message from the system.
pub open spec fn is_system(m: MessageView) -> bool {
    m.role == "system"@
}

/// The texts of the system messages, in order.
pub open spec fn system_texts(ms: Seq<MessageView>) -> Seq<Seq<char>>
    decreases ms.len(),
{
    if ms.len() == 0 {
        Seq::empty()
    } else if is_system(ms.last()) {
        system_texts(ms.drop_last()).push(content_text(ms.last().content))
    } else {
        system_texts(ms.drop_last())
    }
}

/// The other messages as role and text, in order.
pub open spec fn other_turns(ms: Seq<MessageView>) -> Seq<(Seq<char>, Seq<char>)>
    decreases ms.len(),
{
    if ms.len() == 0 {
        Seq::empty()
    } else if is_system(ms.last()) {
        other_turns(ms.drop_last())
    } else {
        other_turns(ms.drop_last()).push((ms.last().role, content_text(ms.last().content)))
    }
}

/// The messages prepared for the template: the non-system messages as role and
/// text; the system texts, joined by newlines, lead the first of them followed
/// by a blank line when it is a user message (and are dropped otherwise).
pub open spec fn prepared(ms: Seq<MessageView>) -> Seq<(Seq<char>, Seq<char>)> {
    let sys = system_texts(ms);
    let rest = other_turns(ms);
    if sys.len() > 0 && rest.len() > 0 && rest[0].0 == "user"@ {
        rest.update(0, (rest[0].0, join(sys, "\n"@) + "\n\n"@ + rest[0].1))
    } else {
        rest
    }
}

/// The messages prepared for the chat template (see `prepared`).
pub fn prepare_messages(messages: &Vec<ChatMessage>) -> (r: Vec<PreparedMessage>)
    ensures
        prepared_views(r@) == prepared(messages_view(messages@)),
{
    let ghost ms = messages_view(messages@);
    let mut system_parts: Vec<String> = Vec::new();
    let mut rest: Vec<PreparedMessage> = Vec::new();
    let mut i: usize = 0;
    while i < messages.len()
        invariant
            0 <= i <= messages@.len(),
            ms == messages_view(messages@),
            views(system_parts@) == system_texts(ms.take(i as int)),
            prepared_views(rest@) == other_turns(ms.take(i as int)),
        decreases messages@.len() - i,
    {
        let m = &messages[i];
        assert(ms.take(i + 1).drop_last() =~= ms.take(i as int));
        assert(ms.take(i + 1).last() == m@);
        let ghost sp = system_parts@;
        let ghost rp = rest@;
        if str_eq(m.role.as_str(), "system") {
            system_parts.push(m.content.as_text());
            assert(views(system_parts@) =~= views(sp).push(content_text(m.content@)));
        } else {
            rest.push(PreparedMessage { role: m.role.clone(), content: m.content.as_text() });
            assert(prepared_views(rest@) =~= prepared_views(rp).push(
                (m.role@, content_text(m.content@)),
            ));
        }
        i = i + 1;
    }
    assert(ms.take(i as int) =~= ms);
    if system_parts.len() > 0 && rest.len() > 0 && str_eq(rest[0].role.as_str(), "user") {
        let prefix = join_strings(&system_parts, "\n");
        let joined = concat2(prefix.as_str(), "\n\n");
        let content = concat2(joined.as_str(), rest[0].content.as_str());
        let role = rest[0].role.clone();
        let ghost rp = rest@;
        rest.set(0, PreparedMessage { role, content });
        assert(prepared_views(rest@) =~= prepared_views(rp).update(
            0,
            (rp[0].role@, join(views(system_parts@), "\n"@) + "\n\n"@ + rp[0].content@),
        ));
    }
    rest
}

/// The prompt without a chat template: one line `User: …` or `Assistant: …`
/// per prepared message (every role but `user` reads as the assistant), then
/// a line that opens the assistant's turn.
pub open spec fn plain_prompt(ps: Seq<(Seq<char>, Seq<char>)>) -> Seq<char> {
    join(
        ps.map_values(
            |p: (Seq<char>, Seq<char>)|
                if p.0 == "user"@ {
                    "User: "@ + p.1
                } else {
                    "Assistant: "@ + p.1
                },
        ),
        "\n"@,
    ) + "\nAssistant: "@
}

/// The lines `role: text` of the prepared messages, joined by newlines (the
/// prefix as formatted without a chat template).
pub open spec fn plain_prefix(ps: Seq<(Seq<char>, Seq<char>)>) -> Seq<char> {
    join(ps.map_values(|p: (Seq<char>, Seq<char>)| p.0 + ": "@ + p.1), "\n"@)
}

/// The prompt without a chat template (see `plain_prompt`).
pub fn fallback_prompt(prepared: &Vec<PreparedMessage>) -> (r: String)
    ensures
        r@ == plain_prompt(prepared_views(prepared@)),
{
    let mut lines: Vec<String> = Vec::new();
    let mut i: usize = 0;
    while i < prepared.len()
        invariant
            0 <= i <= prepared@.len(),
            lines@.len() == i,
            forall|j: int|
                0 <= j < i ==> (#[trigger] lines@[j])@ == (if prepared@[j].role@ == "user"@ {
                    "User: "@ + prepared@[j].content@
                } else {
                    "Assistant: "@ + prepared@[j].content@
                }),
        decreases prepared@.len() - i,
    {
        let p = &prepared[i];
        let line = if str_eq(p.role.as_str(), "user") {
            concat2("User: ", p.content.as_str())
        } else {
            concat2("Assistant: ", p.content.as_str())
        };
        lines.push(line);
        i = i + 1;
    }
    let body = join_strings(&lines, "\n");
    assert(views(lines@) =~= prepared_views(prepared@).map_values(
        |p: (Seq<char>, Seq<char>)|
            if p.0 == "user"@ {
                "User: "@ + p.1
            } else {
                "Assistant: "@ + p.1
            },
    ));
    concat2(body.as_str(), "\nAssistant: ")
}

/// The prefix as formatted without a chat template (see `plain_prefix`).
pub fn fallback_prefix(prepared: &Vec<PreparedMessage>) -> (r: String)
    ensures
        r@ == plain_prefix(prepared_views(prepared@)),
{
    let mut lines: Vec<String> = Vec::new();
    let mut i: usize = 0;
    while i < prepared.len()
        invariant
            0 <= i <= prepared@.len(),
            lines@.len() == i,
            forall|j: int|
                0 <= j < i ==> (#[trigger] lines@[j])@ == prepared@[j].role@ + ": "@
                    + prepared@[j].content@,
        decreases prepared@.len() - i,
    {
        let p = &prepared[i];
        let head = concat2(p.role.as_str(), ": ");
        lines.push(concat2(head.as_str(), p.content.as_str()));
        i = i + 1;
    }
    assert(views(lines@) =~= prepared_views(prepared@).map_values(
        |p: (Seq<char>, Seq<char>)| p.0 + ": "@ + p.1,
    ));
    join_strings(&lines, "\n")
}

// ── Stable prefix ───────────────────────────────────────────────────────────

/// The position of the last user message.
pub open spec fn last_user(ms: Seq<MessageView>) -> Option<int>
    decreases ms.len(),
{
    if ms.len() == 0 {
        None
    } else if ms.last().role == "user"@ {
        Some(ms.len() - 1)
    } else {
        last_user(ms.drop_last())
    }
}

/// The messages before the last user message, when there are any; nothing
/// otherwise. This is the part of a conversation that later requests share.
pub fn extract_prefix_messages(messages: &Vec<ChatMessage>) -> (r: Vec<ChatMessage>)
    ensures
        messages_view(r@) == match last_user(messages_view(messages@)) {
            Some(i) => if i > 0 {
                messages_view(messages@).take(i)
            } else {
                Seq::empty()
            },
            None => Seq::<MessageView>::empty(),
        },
{
    let ghost ms = messages_view(messages@);
    let mut k = messages.len();
    assert(ms.take(k as int) =~= ms);
    while k > 0 && !str_eq(messages[k - 1].role.as_str(), "user")
        invariant
            0 <= k <= messages@.len(),
            ms == messages_view(messages@),
            last_user(ms) == last_user(ms.take(k as int)),
        decreases k,
    {
        assert(ms.take(k as int).drop_last() =~= ms.take(k - 1));
        k = k - 1;
    }
    let mut r: Vec<ChatMessage> = Vec::new();
    if k > 1 {
        let idx = k - 1;
        let mut j: usize = 0;
        while j < idx
            invariant
                0 <= j <= idx < messages@.len(),
                ms == messages_view(messages@),
                messages_view(r@) == ms.take(j as int),
            decreases idx - j,
        {
            let ghost before = r@;
            let m = messages[j].clone();
            r.push(m);
            assert(r@ == before.push(m));
            assert(messages_view(r@) =~= messages_view(before).push(messages@[j as int]@));
            assert(messages_view(r@) =~= ms.take(j + 1));
            j = j + 1;
        }
    } else {
        assert(messages_view(r@) =~= Seq::<MessageView>::empty());
    }
    r
}

// ── Sliding window ──────────────────────────────────────────────────────────

/// The sum of a list of counts.
pub open spec fn total(cs: Seq<usize>) -> int
    decreases cs.len(),
{
    if cs.len() == 0 {
        0
    } else {
        total(cs.drop_last()) + cs.last()
    }
}

/// The system messages, the other messages, and the token counts of the
/// other messages, each in order.
pub open spec fn split_system(ms: Seq<MessageView>, cs: Seq<usize>) -> (
    Seq<MessageView>,
    Seq<MessageView>,
    Seq<usize>,
)
    decreases ms.len(),
{
    if ms.len() == 0 || cs.len() == 0 {
        (Seq::empty(), Seq::empty(), Seq::empty())
    } else {
        let r = split_system(ms.drop_last(), cs.drop_last());
        if is_system(ms.last()) {
            (r.0.push(ms.last()), r.1, r.2)
        } else {
            (r.0, r.1.push(ms.last()), r.2.push(cs.last()))
        }
    }
}

/// How many of the most recent messages fit in `budget` tokens, walking back
/// from the newest and stopping at the first that does not fit.
pub open spec fn recent_fit(cs: Seq<usize>, budget: int) -> nat
    decreases cs.len(),
{
    if cs.len() == 0 || cs.last() > budget {
        0
    } else {
        1 + recent_fit(cs.drop_last(), budget - cs.last())
    }
}

/// The conversation after the sliding window: system messages first, then all
/// other messages when their tokens fit in `budget`, else the most recent ones
/// that fit, or at least the newest one.
pub open spec fn windowed(ms: Seq<MessageView>, cs: Seq<usize>, budget: int) -> Seq<MessageView> {
    let (sys, others, ocs) = split_system(ms, cs);
    if total(ocs) <= budget {
        sys + others
    } else {
        let k = recent_fit(ocs, budget);
        if k == 0 && others.len() > 0 {
            sys.push(others.last())
        } else {
            sys + others.skip(others.len() - k)
        }
    }
}

/// The counts of the kept suffix fit in the budget, and one more would not.
pub proof fn lemma_recent_fit(cs: Seq<usize>, budget: int)
    ensures
        recent_fit(cs, budget) <= cs.len(),
        total(cs.skip(cs.len() - recent_fit(cs, budget))) <= budget || recent_fit(cs, budget)
            == 0,
        recent_fit(cs, budget) < cs.len() ==> total(
            cs.skip(cs.len() - recent_fit(cs, budget) - 1),
        ) > budget,
    decreases cs.len(),
{
    if cs.len() == 0 || cs.last() > budget {
        assert(total(Seq::<usize>::empty()) == 0);
        assert(cs.skip(cs.len() as int) =~= Seq::<usize>::empty());
        if cs.len() > 0 {
            let t = cs.skip(cs.len() - 1);
            assert(t.drop_last() =~= Seq::<usize>::empty());
            assert(t.last() == cs.last());
            assert(total(t) == total(t.drop_last()) + t.last());
        }
    } else {
        let d = cs.drop_last();
        lemma_recent_fit(d, budget - cs.last());
        let k = recent_fit(d, budget - cs.last());
        let t = cs.skip(cs.len() - (k + 1));
        assert(t.drop_last() =~= d.skip(d.len() - k));
        assert(t.last() == cs.last());
        assert(total(t) == total(t.drop_last()) + t.last());
        if k + 1 < cs.len() {
            let u = cs.skip(cs.len() - (k + 1) - 1);
            assert(u.drop_last() =~= d.skip(d.len() - k - 1));
            assert(u.last() == cs.last());
            assert(total(u) == total(u.drop_last()) + u.last());
        }
    }
}

/// The token budget of the sliding window that conversations are cut to
/// before a generation.
pub const MAX_WINDOW_TOKENS: usize = 3000;

/// The sliding window over a conversation, given the token count of each
/// message's text (see `windowed`).
pub fn apply_sliding_window(messages: Vec<ChatMessage>, budget: usize, counts: &Vec<usize>) -> (r: Vec<
    ChatMessage,
>)
    requires
        counts@.len() == messages@.len(),
        total(split_system(messages_view(messages@), counts@).2) <= usize::MAX,
    ensures
        messages_view(r@) == windowed(messages_view(messages@), counts@, budget as int),
{
    let ghost ms = messages_view(messages@);
    let mut system: Vec<ChatMessage> = Vec::new();
    let mut others: Vec<ChatMessage> = Vec::new();
    let mut ocs: Vec<usize> = Vec::new();
    let mut i: usize = 0;
    while i < messages.len()
        invariant
            0 <= i <= messages@.len(),
            counts@.len() == messages@.len(),
            ms == messages_view(messages@),
            messages_view(system@) == split_system(ms.take(i as int), counts@.take(i as int)).0,
            messages_view(others@) == split_system(ms.take(i as int), counts@.take(i as int)).1,
            ocs@ == split_system(ms.take(i as int), counts@.take(i as int)).2,
            others@.len() == ocs@.len(),
        decreases messages@.len() - i,
    {
        assert(ms.take(i + 1).drop_last() =~= ms.take(i as int));
        assert(counts@.take(i + 1).drop_last() =~= counts@.take(i as int));
        assert(ms.take(i + 1).last() == messages@[i as int]@);
        let m = messages[i].clone();
        let ghost s0 = system@;
        let ghost o0 = others@;
        if str_eq(m.role.as_str(), "system") {
            system.push(m);
            assert(messages_view(system@) =~= messages_view(s0).push(messages@[i as int]@));
        } else {
            others.push(m);
            ocs.push(counts[i]);
            assert(messages_view(others@) =~= messages_view(o0).push(messages@[i as int]@));
        }
        i = i + 1;
    }
    assert(ms.take(i as int) =~= ms);
    assert(counts@.take(i as int) =~= counts@);
    let ghost sp = split_system(ms, counts@);
    // the sum of the other messages' counts
    let mut sum: usize = 0;
    let mut j: usize = 0;
    proof {
        lemma_total_prefix_bound(ocs@, 0);
    }
    while j < ocs.len()
        invariant
            0 <= j <= ocs@.len(),
            ocs@ == sp.2,
            total(sp.2) <= usize::MAX,
            sum == total(ocs@.take(j as int)),
        decreases ocs@.len() - j,
    {
        proof {
            lemma_total_prefix_bound(ocs@, j + 1);
            assert(ocs@.take(j + 1).drop_last() =~= ocs@.take(j as int));
        }
        sum = sum + ocs[j];
        j = j + 1;
    }
    assert(ocs@.take(j as int) =~= ocs@);
    if sum <= budget {
        let mut r = system;
        let ghost s0 = r@;
        let mut k: usize = 0;
        while k < others.len()
            invariant
                0 <= k <= others@.len(),
                messages_view(r@) == messages_view(s0) + messages_view(others@.take(k as int)),
            decreases others@.len() - k,
        {
            let ghost before = r@;
            let m = others[k].clone();
            r.push(m);
            assert(messages_view(r@) =~= messages_view(before).push(others@[k as int]@));
            assert(messages_view(others@.take(k + 1)) =~= messages_view(others@.take(k as int)).push(
                others@[k as int]@,
            ));
            assert(messages_view(r@) =~= messages_view(s0) + messages_view(others@.take(k + 1)));
            k = k + 1;
        }
        assert(others@.take(k as int) =~= others@);
        return r;
    }
    // walk back from the newest message while the counts fit
    let n = ocs.len();
    let mut kept: usize = 0;
    let mut used: usize = 0;
    let mut full = false;
    proof {
        lemma_recent_fit_walk(ocs@, budget as int, 0, 0);
    }
    while kept < n && !full
        invariant
            n == ocs@.len(),
            0 <= kept <= n,
            used <= budget,
            used == total(ocs@.skip(n - kept)),
            total(ocs@) <= usize::MAX,
            full ==> kept < n && used + ocs@[n - 1 - kept] > budget,
            recent_fit(ocs@, budget as int) == kept + recent_fit(
                ocs@.take(n - kept),
                budget - used,
            ),
        decreases n - kept + if full {
            0int
        } else {
            1int
        },
    {
        proof {
            lemma_total_suffix_bound(ocs@, n - kept - 1);
        }
        let t = ocs[n - 1 - kept];
        if used + t > budget {
            full = true;
        } else {
            proof {
                lemma_recent_fit_walk(ocs@, budget as int, kept as int, used as int);
            }
            used = used + t;
            kept = kept + 1;
        }
    }
    proof {
        let t = ocs@.take(n - kept);
        if kept < n {
            assert(t.last() == ocs@[n - 1 - kept]);
        } else {
            assert(t =~= Seq::<usize>::empty());
        }
        assert(recent_fit(t, budget - used) == 0);
    }
    let mut r = system;
    let ghost s0 = r@;
    if kept == 0 && others.len() > 0 {
        let last = others[others.len() - 1].clone();
        r.push(last);
        assert(r@ == s0.push(last));
        assert(messages_view(r@) =~= messages_view(s0).push(others@.last()@));
    } else {
        let start = others.len() - kept;
        let mut k = start;
        assert(messages_view(others@.subrange(start as int, start as int)) =~= Seq::<
            MessageView,
        >::empty());
        assert(messages_view(s0) + Seq::<MessageView>::empty() =~= messages_view(s0));
        while k < others.len()
            invariant
                start <= k <= others@.len(),
                messages_view(r@) == messages_view(s0) + messages_view(
                    others@.subrange(start as int, k as int),
                ),
            decreases others@.len() - k,
        {
            let ghost before = r@;
            let m = others[k].clone();
            r.push(m);
            assert(messages_view(r@) =~= messages_view(before).push(others@[k as int]@));
            assert(messages_view(others@.subrange(start as int, k + 1)) =~= messages_view(
                others@.subrange(start as int, k as int),
            ).push(others@[k as int]@));
            assert(messages_view(r@) =~= messages_view(s0) + messages_view(
                others@.subrange(start as int, k + 1),
            ));
            k = k + 1;
        }
        assert(messages_view(others@.subrange(start as int, others@.len() as int)) =~= messages_view(
            others@,
        ).skip(messages_view(others@).len() - kept));
    }
    r
}

/// A prefix of a list sums to no more than the whole list.
proof fn lemma_total_prefix_bound(cs: Seq<usize>, j: int)
    requires
        0 <= j <= cs.len(),
    ensures
        total(cs.take(j)) <= total(cs),
    decreases cs.len() - j,
{
    if j < cs.len() {
        lemma_total_prefix_bound(cs, j + 1);
        assert(cs.take(j + 1).drop_last() =~= cs.take(j));
    } else {
        assert(cs.take(j) =~= cs);
    }
}

/// A sum of counts is not negative.
proof fn lemma_total_nonneg(cs: Seq<usize>)
    ensures
        total(cs) >= 0,
    decreases cs.len(),
{
    if cs.len() > 0 {
        lemma_total_nonneg(cs.drop_last());
    }
}

/// A suffix of a list sums to no more than the whole list, and the sum of a
/// suffix grows by the element before it.
proof fn lemma_total_suffix_bound(cs: Seq<usize>, j: int)
    requires
        0 <= j < cs.len(),
    ensures
        total(cs.skip(j)) == cs[j] + total(cs.skip(j + 1)),
        total(cs.skip(j)) <= total(cs),
    decreases cs.len() - j,
{
    lemma_total_split(cs, j);
    lemma_total_split(cs, j + 1);
    lemma_total_split(cs.take(j + 1), j);
    lemma_total_nonneg(cs.take(j));
    assert(cs.take(j + 1).take(j) =~= cs.take(j));
    assert(cs.take(j + 1).skip(j) =~= seq![cs[j]]);
    assert(seq![cs[j]].drop_last() =~= Seq::<usize>::empty());
}

/// The sum of a list is the sum of its first `j` elements and of the rest.
proof fn lemma_total_split(cs: Seq<usize>, j: int)
    requires
        0 <= j <= cs.len(),
    ensures
        total(cs) == total(cs.take(j)) + total(cs.skip(j)),
    decreases cs.len(),
{
    if j == cs.len() {
        assert(cs.take(j) =~= cs);
        assert(cs.skip(j) =~= Seq::<usize>::empty());
    } else {
        lemma_total_split(cs.drop_last(), j);
        assert(cs.drop_last().take(j) =~= cs.take(j));
        assert(cs.skip(j).drop_last() =~= cs.drop_last().skip(j));
        assert(cs.skip(j).last() == cs.last());
    }
}

/// One step of the walk back from the newest message.
proof fn lemma_recent_fit_walk(cs: Seq<usize>, budget: int, kept: int, used: int)
    requires
        0 <= kept < cs.len() || kept == 0,
        0 <= kept <= cs.len(),
    ensures
        kept == 0 ==> recent_fit(cs, budget) == recent_fit(cs.take(cs.len() as int), budget - 0),
        kept == 0 ==> total(cs.skip(cs.len() as int)) == 0,
        kept < cs.len() && used + cs[cs.len() - 1 - kept] <= budget ==> recent_fit(
            cs.take(cs.len() - kept),
            budget - used,
        ) == 1 + recent_fit(cs.take(cs.len() - kept - 1), budget - used - cs[cs.len() - 1 - kept]),
{
    assert(cs.take(cs.len() as int) =~= cs);
    assert(cs.skip(cs.len() as int) =~= Seq::<usize>::empty());
    if kept < cs.len() {
        let t = cs.take(cs.len() - kept);
        assert(t.drop_last() =~= cs.take(cs.len() - kept - 1));
        assert(t.last() == cs[cs.len() - 1 - kept]);
    }
}

// ── Tool-call segments ──────────────────────────────────────────────────────

/// The texts between tool-call delimiters in `s`, from position `i` on: each
/// starts after an occurrence of `open` and ends before the next `close` (or
/// at the end of the text; at once the text's end when `close` is empty).
pub open spec fn segments_from(s: Seq<char>, open: Seq<char>, close: Seq<char>, i: int) -> Seq<
    Seq<char>,
>
    decreases s.len() - i,
{
    if i < 0 || i > s.len() || open.len() == 0 {
        Seq::empty()
    } else {
        match find_from(s, open, i) {
            None => Seq::empty(),
            Some(st) => {
                let a = st + open.len();
                let e = if close.len() == 0 {
                    s.len() as int
                } else {
                    match find_from(s, close, a) {
                        Some(c) => c,
                        None => s.len() as int,
                    }
                };
                let next = if close.len() == 0 {
                    s.len() as int
                } else if e + close.len() > s.len() {
                    s.len() as int
                } else {
                    e + close.len()
                };
                if next > i && a <= e <= s.len() {
                    seq![s.subrange(a, e)] + segments_from(s, open, close, next)
                } else {
                    Seq::empty()
                }
            },
        }
    }
}

/// The texts between tool-call delimiters in `text` (see `segments_from`).
pub fn tool_call_segments(text: &str, open: &str, close: &str) -> (r: Vec<String>)
    requires
        open@.len() > 0,
    ensures
        views(r@) == segments_from(text@, open@, close@, 0),
{
    let s = chars_of(text);
    let o = chars_of(open);
    let c = chars_of(close);
    let mut out: Vec<String> = Vec::new();
    let mut i: usize = 0;
    let mut done = false;
    assert(views(out@) + segments_from(s@, o@, c@, 0) =~= segments_from(s@, o@, c@, 0));
    while !done
        invariant
            s@ == text@,
            o@ == open@,
            c@ == close@,
            o@.len() > 0,
            0 <= i <= s@.len(),
            done ==> views(out@) == segments_from(s@, o@, c@, 0),
            !done ==> views(out@) + segments_from(s@, o@, c@, i as int) == segments_from(
                s@,
                o@,
                c@,
                0,
            ),
        decreases s@.len() - i + if done {
            0int
        } else {
            1int
        },
    {
        match find_chars(s.as_slice(), o.as_slice(), i) {
            None => {
                assert(segments_from(s@, o@, c@, i as int) =~= Seq::<Seq<char>>::empty());
                assert(views(out@) + Seq::<Seq<char>>::empty() =~= views(out@));
                done = true;
            },
            Some(st) => {
                proof {
                    lemma_find_from(s@, o@, i as int);
                    assert(crate::text::matches_at(s@, o@, st as int));
                    assert(st + o@.len() <= s@.len());
                }
                let n = s.len();
                let olen = o.len();
                assert(st + olen <= n);
                let a = st + olen;
                let e = if c.len() == 0 {
                    s.len()
                } else {
                    match find_chars(s.as_slice(), c.as_slice(), a) {
                        Some(x) => {
                            proof {
                                lemma_find_from(s@, c@, a as int);
                            }
                            x
                        },
                        None => s.len(),
                    }
                };
                let next = if c.len() == 0 {
                    s.len()
                } else if c.len() > s.len() - e {
                    s.len()
                } else {
                    e + c.len()
                };
                let ghost before = views(out@);
                out.push(string_of(crate::text::slice_vec(s.as_slice(), a, e).as_slice()));
                assert(views(out@) =~= before.push(s@.subrange(a as int, e as int)));
                assert(seq![s@.subrange(a as int, e as int)] + segments_from(s@, o@, c@, next as int)
                    == segments_from(s@, o@, c@, i as int));
                assert(views(out@) + segments_from(s@, o@, c@, next as int) =~= before + (seq![
                    s@.subrange(a as int, e as int),
                ] + segments_from(s@, o@, c@, next as int)));
                i = next;
            },
        }
    }
    out
}

/// Whether the text holds both tool-call delimiters.
pub fn has_tool_call_delimiters(text: &str, open: &str, close: &str) -> (r: bool)
    ensures
        r == (crate::text::contains_seq(text@, open@) && crate::text::contains_seq(text@, close@)),
{
    crate::text::str_contains(text, open) && crate::text::str_contains(text, close)
}

} // verus!
