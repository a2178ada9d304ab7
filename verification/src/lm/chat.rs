//! Shaping a chat completion request and its response: how many choices, the
//! token estimate that refuses oversized requests, the JSON-mode instruction,
//! the thinking budget, per-choice seeds, the cleanup of JSON output, and the
//! in-band markers by which the generator tells the streaming handler about
//! finish reasons, log-probabilities and tool calls.

use vstd::prelude::*;
use crate::text::{
    byte_len, chars_of, concat2, concat3, decimal, decimal_string, owned, replace_all,
    replace_str, slice_vec, starts_with, starts_with_chars, str_byte_len, str_eq, string_of,
    trim, trim_chars, replace_from,
};
use crate::lm::models::{
    content_image_urls, content_text, messages_view, string_views, ChatMessage, MessageContent,
    MessageView, Usage,
};

verus! {

/// The estimated prompt size, in tokens, above which a request is refused.
pub const MAX_MESSAGE_TOKENS: usize = 4096;

/// How often a JSON answer is generated before the last one is taken as it is.
pub const MAX_JSON_RETRIES: usize = 3;

/// Why a chat request was refused before generation.
pub enum ChatError {
    /// Streaming asks for a single choice.
    StreamingChoices,
    /// The prompt is estimated to be too long, with the message.
    TokenLimit(String),
}

/// The number of choices: one by default, at least one and at most sixteen.
pub open spec fn choices_for(n: Option<u32>) -> u32 {
    let k = match n {
        Some(k) => k,
        None => 1,
    };
    if k < 1 {
        1
    } else if k > 16 {
        16
    } else {
        k
    }
}

/// The number of choices a request asks for, refused when it streams more than one.
pub fn choice_count(n: Option<u32>, stream: Option<bool>) -> (r: Result<u32, ChatError>)
    ensures
        match r {
            Ok(k) => k == choices_for(n) && !(stream == Some(true) && choices_for(n) > 1),
            Err(ChatError::StreamingChoices) => stream == Some(true) && choices_for(n) > 1,
            Err(_) => false,
        },
{
    let k = match n {
        Some(k) => k,
        None => 1,
    };
    let k = if k < 1 {
        1
    } else if k > 16 {
        16
    } else {
        k
    };
    let streaming = match stream {
        Some(b) => b,
        None => false,
    };
    if streaming && k > 1 {
        Err(ChatError::StreamingChoices)
    } else {
        Ok(k)
    }
}

/// The number of bytes of the messages' texts.
pub open spec fn text_bytes(ms: Seq<MessageView>) -> int
    decreases ms.len(),
{
    if ms.len() == 0 {
        0
    } else {
        text_bytes(ms.drop_last()) + byte_len(content_text(ms.last().content))
    }
}

/// The message refusing a prompt of `estimate` tokens.
pub open spec fn token_limit_text(estimate: nat) -> Seq<char> {
    "estimated "@ + decimal(estimate) + " tokens exceeds maximum 4096"@
}

/// Refuses a prompt whose text, at four bytes per token, is estimated above
/// `MAX_MESSAGE_TOKENS` tokens.
pub fn check_token_estimate(messages: &Vec<ChatMessage>) -> (r: Result<(), ChatError>)
    requires
        text_bytes(messages_view(messages@)) <= usize::MAX,
    ensures
        match r {
            Ok(()) => text_bytes(messages_view(messages@)) / 4 <= MAX_MESSAGE_TOKENS,
            Err(ChatError::TokenLimit(m)) => text_bytes(messages_view(messages@)) / 4
                > MAX_MESSAGE_TOKENS && m@ == token_limit_text(
                (text_bytes(messages_view(messages@)) / 4) as nat,
            ),
            Err(_) => false,
        },
{
    let ghost ms = messages_view(messages@);
    let mut total: usize = 0;
    let mut i: usize = 0;
    while i < messages.len()
        invariant
            0 <= i <= messages@.len(),
            ms == messages_view(messages@),
            total == text_bytes(ms.take(i as int)),
            text_bytes(ms) <= usize::MAX,
        decreases messages@.len() - i,
    {
        let t = messages[i].content.as_text();
        let b = str_byte_len(t.as_str());
        proof {
            assert(ms.take(i + 1).drop_last() =~= ms.take(i as int));
            lemma_text_bytes_prefix(ms, i + 1);
        }
        total = total + b;
        i = i + 1;
    }
    assert(ms.take(i as int) =~= ms);
    let estimate = total / 4;
    if estimate > MAX_MESSAGE_TOKENS {
        let digits = decimal_string(estimate as u64);
        Err(ChatError::TokenLimit(concat3("estimated ", digits.as_str(), " tokens exceeds maximum 4096")))
    } else {
        Ok(())
    }
}

/// The texts of a prefix count no more bytes than those of all messages.
proof fn lemma_text_bytes_prefix(ms: Seq<MessageView>, k: int)
    requires
        0 <= k <= ms.len(),
    ensures
        text_bytes(ms.take(k)) <= text_bytes(ms),
    decreases ms.len() - k,
{
    if k < ms.len() {
        lemma_text_bytes_prefix(ms, k + 1);
        assert(ms.take(k + 1).drop_last() =~= ms.take(k));
    } else {
        assert(ms.take(k) =~= ms);
    }
}

/// The image URLs of all messages, in order.
pub open spec fn all_image_urls(ms: Seq<MessageView>) -> Seq<Seq<char>>
    decreases ms.len(),
{
    if ms.len() == 0 {
        Seq::empty()
    } else {
        all_image_urls(ms.drop_last()) + content_image_urls(ms.last().content)
    }
}

/// The image URLs of all messages, in order (a request with any goes to the
/// vision model).
pub fn image_urls_of(messages: &Vec<ChatMessage>) -> (r: Vec<String>)
    ensures
        string_views(r@) == all_image_urls(messages_view(messages@)),
{
    let ghost ms = messages_view(messages@);
    let mut out: Vec<String> = Vec::new();
    let mut i: usize = 0;
    while i < messages.len()
        invariant
            0 <= i <= messages@.len(),
            ms == messages_view(messages@),
            string_views(out@) == all_image_urls(ms.take(i as int)),
        decreases messages@.len() - i,
    {
        assert(ms.take(i + 1).drop_last() =~= ms.take(i as int));
        let urls = messages[i].content.image_urls();
        let mut j: usize = 0;
        let ghost before = string_views(out@);
        while j < urls.len()
            invariant
                0 <= j <= urls@.len(),
                string_views(out@) == before + string_views(urls@).take(j as int),
            decreases urls@.len() - j,
        {
            let ghost prev = out@;
            let u = urls[j].clone();
            out.push(u);
            assert(out@ == prev.push(u));
            assert(string_views(out@) =~= string_views(prev).push(u@));
            assert(string_views(urls@).take(j + 1) =~= string_views(urls@).take(j as int).push(
                urls@[j as int]@,
            ));
            assert(string_views(out@) =~= before + string_views(urls@).take(j + 1));
            j = j + 1;
        }
        assert(string_views(urls@).take(j as int) =~= string_views(urls@));
        i = i + 1;
    }
    assert(ms.take(i as int) =~= ms);
    out
}

// ── JSON mode ───────────────────────────────────────────────────────────────

/// The instruction for `json_object` responses.
pub open spec fn json_object_instruction() -> Seq<char> {
    "You must respond with valid JSON only. Do not include any text before or after the JSON object."@
}

/// The instruction a response format adds to the conversation: a fixed one for
/// `json_object`, one quoting the (pretty-printed) schema for `json_schema`,
/// none otherwise.
pub open spec fn format_instruction(kind: Seq<char>, schema_hint: Seq<char>) -> Option<Seq<char>> {
    if kind == "json_object"@ {
        Some(json_object_instruction())
    } else if kind == "json_schema"@ {
        Some("Respond only with valid JSON that matches this schema:\n```json\n"@ + schema_hint
            + "\n```"@)
    } else {
        None
    }
}

/// The instruction for a response format (see `format_instruction`).
pub fn json_mode_instruction(kind: &str, schema_hint: &str) -> (r: Option<String>)
    ensures
        match r {
            Some(s) => format_instruction(kind@, schema_hint@) == Some(s@),
            None => format_instruction(kind@, schema_hint@) is None,
        },
{
    if str_eq(kind, "json_object") {
        Some(
            owned(
                "You must respond with valid JSON only. Do not include any text before or after the JSON object.",
            ),
        )
    } else if str_eq(kind, "json_schema") {
        Some(
            concat3(
                "Respond only with valid JSON that matches this schema:\n```json\n",
                schema_hint,
                "\n```",
            ),
        )
    } else {
        None
    }
}

/// Whether the output of a response format is checked as JSON.
pub fn validates_json(kind: &str) -> (r: bool)
    ensures
        r == (kind@ == "json_schema"@ || kind@ == "json_object"@),
{
    str_eq(kind, "json_schema") || str_eq(kind, "json_object")
}

/// The position of the first system message.
pub open spec fn first_system(ms: Seq<MessageView>) -> Option<int>
    decreases ms.len(),
{
    if ms.len() == 0 {
        None
    } else {
        match first_system(ms.drop_last()) {
            Some(i) => Some(i),
            None => if ms.last().role == "system"@ {
                Some(ms.len() - 1)
            } else {
                None
            },
        }
    }
}

/// The conversation with `instruction` added: to the text of the first system
/// message after a blank line, or as a new system message in front.
pub open spec fn with_instruction(ms: Seq<MessageView>, instruction: Seq<char>) -> Seq<MessageView> {
    match first_system(ms) {
        Some(i) => ms.update(
            i,
            MessageView {
                role: ms[i].role,
                content: crate::lm::models::ContentView::Text(
                    content_text(ms[i].content) + "\n\n"@ + instruction,
                ),
            },
        ),
        None => seq![
            MessageView {
                role: "system"@,
                content: crate::lm::models::ContentView::Text(instruction),
            },
        ] + ms,
    }
}

/// Adds the response-format instruction to the conversation (see `with_instruction`).
pub fn inject_instruction(messages: Vec<ChatMessage>, instruction: String) -> (r: Vec<ChatMessage>)
    ensures
        messages_view(r@) == with_instruction(messages_view(messages@), instruction@),
{
    let ghost ms = messages_view(messages@);
    let mut out = messages;
    let mut i: usize = 0;
    while i < out.len()
        invariant
            0 <= i <= out@.len(),
            ms == messages_view(out@),
            ms == messages_view(messages@),
            first_system(ms.take(i as int)) is None,
        decreases out@.len() - i,
    {
        assert(ms.take(i + 1).drop_last() =~= ms.take(i as int));
        if str_eq(out[i].role.as_str(), "system") {
            proof {
                assert(first_system(ms.take(i + 1)) == Some(i as int));
                lemma_first_system_extends(ms, i + 1);
            }
            let existing = out[i].content.as_text();
            let text = concat3(existing.as_str(), "\n\n", instruction.as_str());
            let role = out[i].role.clone();
            let ghost prev = out@;
            let m = ChatMessage { role, content: MessageContent::Text(text) };
            out.set(i, m);
            assert(out@ == prev.update(i as int, m));
            assert(messages_view(out@) =~= with_instruction(ms, instruction@));
            return out;
        }
        i = i + 1;
    }
    let messages = out;
    assert(ms.take(i as int) =~= ms);
    let mut r: Vec<ChatMessage> = Vec::new();
    r.push(ChatMessage { role: owned("system"), content: MessageContent::Text(instruction) });
    let mut k: usize = 0;
    while k < messages.len()
        invariant
            0 <= k <= messages@.len(),
            ms == messages_view(messages@),
            r@.len() == k + 1,
            messages_view(r@) == seq![
                MessageView {
                    role: "system"@,
                    content: crate::lm::models::ContentView::Text(instruction@),
                },
            ] + ms.take(k as int),
        decreases messages@.len() - k,
    {
        let ghost before = r@;
        let m = messages[k].clone();
        r.push(m);
        assert(messages_view(r@) =~= messages_view(before).push(ms[k as int]));
        assert(ms.take(k + 1) =~= ms.take(k as int).push(ms[k as int]));
        assert(messages_view(r@) =~= seq![
            MessageView {
                role: "system"@,
                content: crate::lm::models::ContentView::Text(instruction@),
            },
        ] + ms.take(k + 1));
        k = k + 1;
    }
    assert(ms.take(k as int) =~= ms);
    r
}

/// The first system message of a prefix is that of the whole conversation.
proof fn lemma_first_system_extends(ms: Seq<MessageView>, k: int)
    requires
        0 <= k <= ms.len(),
        first_system(ms.take(k)) is Some,
    ensures
        first_system(ms) == first_system(ms.take(k)),
    decreases ms.len() - k,
{
    if k < ms.len() {
        assert(ms.take(k + 1).drop_last() =~= ms.take(k));
        lemma_first_system_extends(ms, k + 1);
    } else {
        assert(ms.take(k) =~= ms);
    }
}

// ── Sampling settings ───────────────────────────────────────────────────────

/// The thinking budget: the one given, else one set by the reasoning effort
/// (`low` 512, `high` 8192, anything else 2048), else none.
pub fn thinking_budget(explicit: Option<usize>, effort: Option<&str>) -> (r: Option<usize>)
    ensures
        r == match explicit {
            Some(b) => Some(b),
            None => match effort {
                Some(e) => Some(
                    if e@ == "low"@ {
                        512usize
                    } else if e@ == "high"@ {
                        8192usize
                    } else {
                        2048usize
                    },
                ),
                None => None,
            },
        },
{
    match explicit {
        Some(b) => Some(b),
        None => match effort {
            Some(e) => {
                if str_eq(e, "low") {
                    Some(512)
                } else if str_eq(e, "high") {
                    Some(8192)
                } else {
                    Some(2048)
                }
            },
            None => None,
        },
    }
}

/// The seed of choice `i`: the request's seed plus `i`, wrapping.
pub fn run_seed(seed: Option<u64>, i: u32) -> (r: Option<u64>)
    ensures
        r == match seed {
            Some(s) => Some(((s + i) % 0x1_0000_0000_0000_0000) as u64),
            None => None,
        },
{
    match seed {
        Some(s) => Some(s.wrapping_add(i as u64)),
        None => None,
    }
}

/// Whether a generated answer is taken: when it is valid JSON, or at the last
/// allowed attempt (`attempt` counts from zero).
pub fn accept_json_attempt(valid: bool, attempt: usize) -> (r: bool)
    ensures
        r == (valid || attempt + 1 >= MAX_JSON_RETRIES),
{
    valid || attempt >= MAX_JSON_RETRIES - 1
}

/// The token counts of a request and their total.
pub fn usage_of(prompt_tokens: usize, completion_tokens: usize) -> (r: Usage)
    requires
        prompt_tokens + completion_tokens <= usize::MAX,
    ensures
        r.prompt_tokens == prompt_tokens,
        r.completion_tokens == completion_tokens,
        r.total_tokens == prompt_tokens + completion_tokens,
{
    Usage { prompt_tokens, completion_tokens, total_tokens: prompt_tokens + completion_tokens }
}

// ── JSON output cleanup ─────────────────────────────────────────────────────

/// `s` without the trailing characters equal to `c` (std `trim_end_matches`).
pub open spec fn trim_end_char(s: Seq<char>, c: char) -> Seq<char>
    decreases s.len(),
{
    if s.len() > 0 && s.last() == c {
        trim_end_char(s.drop_last(), c)
    } else {
        s
    }
}

/// `s` without the trailing characters equal to `c`.
pub fn trim_end_char_exec(s: &[char], c: char) -> (r: Vec<char>)
    ensures
        r@ == trim_end_char(s@, c),
{
    let mut k = s.len();
    assert(s@.take(k as int) =~= s@);
    while k > 0 && s[k - 1] == c
        invariant
            0 <= k <= s@.len(),
            trim_end_char(s@, c) == trim_end_char(s@.take(k as int), c),
        decreases k,
    {
        assert(s@.take(k as int).drop_last() =~= s@.take(k - 1));
        k = k - 1;
    }
    assert(s@.take(k as int) =~= s@.subrange(0, k as int));
    slice_vec(s, 0, k)
}

/// A JSON answer without model artifacts: the end-of-turn markers
/// `<|im_end|>`, `<|endoftext|>`, `<|end|>` and `</s>` removed, surrounding
/// whitespace trimmed, and a Markdown code fence (```` ```json ```` or
/// ```` ``` ````) taken off with its closing backticks.
pub open spec fn cleaned_json(s: Seq<char>) -> Seq<char> {
    let a = replace_all(
        replace_all(
            replace_all(replace_all(s, "<|im_end|>"@, Seq::empty()), "<|endoftext|>"@, Seq::empty()),
            "<|end|>"@,
            Seq::empty(),
        ),
        "</s>"@,
        Seq::empty(),
    );
    let t = trim(a);
    if starts_with(t, "```json"@) {
        trim(trim_end_char(t.skip(7), '`'))
    } else if starts_with(t, "```"@) {
        trim(trim_end_char(t.skip(3), '`'))
    } else {
        t
    }
}

/// `p` starts with `<` and holds no other `<`, as the end-of-turn markers do.
spec fn marker_shaped(p: Seq<char>) -> bool {
    p.len() > 0 && p[0] == '<' && forall|k: int| 1 <= k < p.len() ==> p[k] != '<'
}

/// `p` does not begin `m` (the markers are not prefixes of one another).
spec fn not_prefix_of(p: Seq<char>, m: Seq<char>) -> bool {
    !(p.len() <= m.len() && m.subrange(0, p.len() as int) == p)
}

/// The four end-of-turn markers.
spec fn end_of_turn_marker(m: Seq<char>) -> bool {
    m == "<|im_end|>"@ || m == "<|endoftext|>"@ || m == "<|end|>"@ || m == "</s>"@
}

proof fn lemma_marker_facts(p: Seq<char>, m: Seq<char>)
    requires
        end_of_turn_marker(p),
        end_of_turn_marker(m),
    ensures
        marker_shaped(p),
        p != m ==> not_prefix_of(p, m),
{
    reveal_strlit("<|im_end|>");
    reveal_strlit("<|endoftext|>");
    reveal_strlit("<|end|>");
    reveal_strlit("</s>");
    if p != m && p.len() <= m.len() && m.subrange(0, p.len() as int) == p {
        if p == "<|end|>"@ {
            assert(m.subrange(0, p.len() as int)[2] == p[2]);
            assert(m.subrange(0, p.len() as int)[5] == p[5]);
        } else if p == "</s>"@ {
            assert(m.subrange(0, p.len() as int)[1] == p[1]);
        } else if p == "<|im_end|>"@ {
            assert(m.subrange(0, p.len() as int)[2] == p[2]);
        }
    }
}

/// Where `p` occurs nowhere from `i` on, replacing it leaves `s[i..]` as it is.
proof fn lemma_replace_untouched(s: Seq<char>, p: Seq<char>, r: Seq<char>, i: int)
    requires
        0 <= i <= s.len(),
        p.len() > 0,
        forall|k: int| i <= k && k + p.len() <= s.len() ==> #[trigger] s.subrange(k, k + p.len()) != p,
    ensures
        replace_from(s, p, r, i) == s.subrange(i, s.len() as int),
    decreases s.len() - i,
{
    if i < s.len() {
        lemma_replace_untouched(s, p, r, i + 1);
        assert(seq![s[i]] + s.subrange(i + 1, s.len() as int) =~= s.subrange(i, s.len() as int));
    } else {
        assert(s.subrange(i, i) =~= Seq::<char>::empty());
    }
}

/// A text without `<` followed by the marker `m`: removing `m` leaves the
/// text.
proof fn lemma_replace_trailing_marker(j: Seq<char>, m: Seq<char>, i: int)
    requires
        forall|k: int| 0 <= k < j.len() ==> j[k] != '<',
        marker_shaped(m),
        0 <= i <= j.len(),
    ensures
        replace_from(j + m, m, Seq::empty(), i) == j.subrange(i, j.len() as int),
    decreases j.len() - i,
{
    let s = j + m;
    if i < j.len() {
        assert(s[i] == j[i]);
        if i + m.len() <= s.len() && s.subrange(i, i + m.len()) == m {
            assert(s.subrange(i, i + m.len())[0] == s[i]);
        }
        lemma_replace_trailing_marker(j, m, i + 1);
        assert(replace_from(s, m, Seq::empty(), i) == seq![s[i]] + replace_from(s, m, Seq::empty(), i + 1));
        assert(seq![s[i]] + j.subrange(i + 1, j.len() as int) =~= j.subrange(i, j.len() as int));
    } else {
        assert(s.subrange(i, i + m.len()) =~= m);
        assert(replace_from(s, m, Seq::empty(), i + m.len()) == Seq::<char>::empty());
        assert(replace_from(s, m, Seq::empty(), i) == Seq::<char>::empty() + replace_from(s, m, Seq::empty(), i + m.len()));
        assert(Seq::<char>::empty() + Seq::<char>::empty() =~= j.subrange(i, j.len() as int));
    }
}

/// Removing a marker `p` from a text without `<` followed by the marker `m`
/// removes `m` when `p` is `m`, and changes nothing otherwise.
proof fn lemma_remove_marker(j: Seq<char>, m: Seq<char>, p: Seq<char>)
    requires
        forall|k: int| 0 <= k < j.len() ==> j[k] != '<',
        end_of_turn_marker(m),
        end_of_turn_marker(p),
    ensures
        replace_all(j + m, p, Seq::empty()) == (if p == m { j } else { j + m }),
        replace_all(j, p, Seq::empty()) == j,
{
    lemma_marker_facts(p, m);
    lemma_marker_facts(m, p);
    let s = j + m;
    if p == m {
        lemma_replace_trailing_marker(j, m, 0);
        assert(j.subrange(0, j.len() as int) =~= j);
    } else {
        assert forall|k: int| 0 <= k && k + p.len() <= s.len() implies #[trigger] s.subrange(
            k,
            k + p.len(),
        ) != p by {
            if s.subrange(k, k + p.len()) == p {
                assert(s.subrange(k, k + p.len())[0] == s[k]);
                if k == j.len() {
                    assert(m.subrange(0, p.len() as int) =~= s.subrange(k, k + p.len()));
                } else if k > j.len() {
                    assert(s[k] == m[k - j.len()]);
                }
            }
        }
        lemma_replace_untouched(s, p, Seq::empty(), 0);
        assert(s.subrange(0, s.len() as int) =~= s);
    }
    assert forall|k: int| 0 <= k && k + p.len() <= j.len() implies #[trigger] j.subrange(
        k,
        k + p.len(),
    ) != p by {
        if j.subrange(k, k + p.len()) == p {
            assert(j.subrange(k, k + p.len())[0] == j[k]);
        }
    }
    lemma_replace_untouched(j, p, Seq::empty(), 0);
    assert(j.subrange(0, j.len() as int) =~= j);
}

/// An end-of-turn marker after the JSON is dropped: for a text without `<`,
/// appending `<|im_end|>`, `<|endoftext|>`, `<|end|>` or `</s>` does not
/// change the cleaned answer, which is the trimmed text when it carries no
/// code fence.
pub proof fn lemma_end_marker_dropped(j: Seq<char>, m: Seq<char>)
    requires
        forall|k: int| 0 <= k < j.len() ==> j[k] != '<',
        m == "<|im_end|>"@ || m == "<|endoftext|>"@ || m == "<|end|>"@ || m == "</s>"@,
    ensures
        cleaned_json(j + m) == cleaned_json(j),
        !starts_with(trim(j), "```"@) ==> cleaned_json(j + m) == trim(j),
{
    let e = Seq::<char>::empty();
    lemma_remove_marker(j, m, "<|im_end|>"@);
    lemma_remove_marker(j, m, "<|endoftext|>"@);
    lemma_remove_marker(j, m, "<|end|>"@);
    lemma_remove_marker(j, m, "</s>"@);
    reveal_strlit("```");
    reveal_strlit("```json");
    let t = trim(j);
    if starts_with(t, "```json"@) {
        assert(t.subrange(0, 3) =~= t.subrange(0, 7).subrange(0, 3));
        assert("```json"@.subrange(0, 3) =~= "```"@);
    }
}

/// The JSON answer without model artifacts (see `cleaned_json`).
pub fn clean_json_output(content: &str) -> (r: String)
    ensures
        r@ == cleaned_json(content@),
{
    proof {
        reveal_strlit("<|im_end|>");
        reveal_strlit("<|endoftext|>");
        reveal_strlit("<|end|>");
        reveal_strlit("</s>");
        reveal_strlit("```json");
        reveal_strlit("```");
        reveal_strlit("");
        assert(""@ =~= Seq::<char>::empty());
    }
    let a = replace_str(content, "<|im_end|>", "");
    let b = replace_str(a.as_str(), "<|endoftext|>", "");
    let c = replace_str(b.as_str(), "<|end|>", "");
    let d = replace_str(c.as_str(), "</s>", "");
    let cs = chars_of(d.as_str());
    let t = trim_chars(cs.as_slice());
    let fence_json = chars_of("```json");
    let fence = chars_of("```");
    if starts_with_chars(t.as_slice(), fence_json.as_slice()) {
        let rest = slice_vec(t.as_slice(), 7, t.len());
        assert(rest@ =~= t@.skip(7));
        let u = trim_end_char_exec(rest.as_slice(), '`');
        let v = trim_chars(u.as_slice());
        string_of(v.as_slice())
    } else if starts_with_chars(t.as_slice(), fence.as_slice()) {
        let rest = slice_vec(t.as_slice(), 3, t.len());
        assert(rest@ =~= t@.skip(3));
        let u = trim_end_char_exec(rest.as_slice(), '`');
        let v = trim_chars(u.as_slice());
        string_of(v.as_slice())
    } else {
        string_of(t.as_slice())
    }
}

/// The text of one choice: empty when the model called tools, the cleaned
/// JSON in JSON mode, the content as generated otherwise.
pub fn choice_content(content: String, json_mode: bool, has_tool_calls: bool) -> (r: String)
    ensures
        r@ == if has_tool_calls {
            Seq::<char>::empty()
        } else if json_mode {
            cleaned_json(content@)
        } else {
            content@
        },
{
    if has_tool_calls {
        String::new()
    } else if json_mode {
        clean_json_output(content.as_str())
    } else {
        content
    }
}

// ── Stream markers ──────────────────────────────────────────────────────────

/// What the generator sends down the stream: answer text, or a marker.
pub enum StreamToken {
    /// The generation's finish reason.
    Finish(String),
    /// The log-probabilities (JSON) of the token that follows.
    Logprob(String),
    /// The parsed tool calls (JSON).
    ToolCalls(String),
    /// Answer text.
    Text(String),
}

/// The marker prefix for finish reasons.
pub open spec fn finish_marker() -> Seq<char> {
    "\x00FINISH:"@
}

/// The marker prefix for log-probabilities.
pub open spec fn logprob_marker() -> Seq<char> {
    "\x00LP:"@
}

/// The marker prefix for tool calls.
pub open spec fn tool_marker() -> Seq<char> {
    "\x00TOOL_CALLS:"@
}

/// `s` without every leading repetition of `p` (std `trim_start_matches`).
pub open spec fn trim_start_seq(s: Seq<char>, p: Seq<char>) -> Seq<char>
    decreases s.len(),
{
    if p.len() > 0 && starts_with(s, p) {
        trim_start_seq(s.skip(p.len() as int), p)
    } else {
        s
    }
}

/// The payload of a marked token: the marker (repeated) taken off the front,
/// the closing NUL characters off the end.
pub open spec fn marker_payload(s: Seq<char>, p: Seq<char>) -> Seq<char> {
    trim_end_char(trim_start_seq(s, p), '\x00')
}

/// What a streamed token is: a finish reason, log-probabilities or tool calls
/// when it starts with the marker of one (checked in that order), text
/// otherwise.
pub open spec fn decode_token(s: Seq<char>) -> (u8, Seq<char>) {
    if starts_with(s, finish_marker()) {
        (0, marker_payload(s, finish_marker()))
    } else if starts_with(s, logprob_marker()) {
        (1, marker_payload(s, logprob_marker()))
    } else if starts_with(s, tool_marker()) {
        (2, marker_payload(s, tool_marker()))
    } else {
        (3, s)
    }
}

/// The kind and payload of a token as decoded.
pub open spec fn token_view(t: StreamToken) -> (u8, Seq<char>) {
    match t {
        StreamToken::Finish(s) => (0, s@),
        StreamToken::Logprob(s) => (1, s@),
        StreamToken::ToolCalls(s) => (2, s@),
        StreamToken::Text(s) => (3, s@),
    }
}

/// `s` without every leading repetition of the non-empty `p`.
fn trim_start_seq_exec(s: &[char], p: &[char]) -> (r: Vec<char>)
    requires
        p@.len() > 0,
    ensures
        r@ == trim_start_seq(s@, p@),
{
    let mut i: usize = 0;
    assert(s@.skip(0) =~= s@);
    while p.len() <= s.len() - i && starts_with_chars(&slice_vec(s, i, s.len()), p)
        invariant
            0 <= i <= s@.len(),
            p@.len() > 0,
            trim_start_seq(s@, p@) == trim_start_seq(s@.skip(i as int), p@),
        decreases s@.len() - i,
    {
        assert(s@.subrange(i as int, s@.len() as int) =~= s@.skip(i as int));
        assert(s@.skip(i as int).skip(p@.len() as int) =~= s@.skip(i + p@.len()));
        i = i + p.len();
    }
    proof {
        if p@.len() > s@.len() - i {
            assert(!starts_with(s@.skip(i as int), p@));
        } else {
            assert(s@.subrange(i as int, s@.len() as int) =~= s@.skip(i as int));
        }
    }
    slice_vec(s, i, s.len())
}

/// Decodes a streamed token (see `decode_token`).
pub fn decode_stream_token(token: String) -> (r: StreamToken)
    ensures
        token_view(r) == decode_token(token@),
{
    proof {
        reveal_strlit("\x00FINISH:");
        reveal_strlit("\x00LP:");
        reveal_strlit("\x00TOOL_CALLS:");
    }
    let s = chars_of(token.as_str());
    let fin = chars_of("\x00FINISH:");
    let lp = chars_of("\x00LP:");
    let tool = chars_of("\x00TOOL_CALLS:");
    if starts_with_chars(s.as_slice(), fin.as_slice()) {
        let a = trim_start_seq_exec(s.as_slice(), fin.as_slice());
        let b = trim_end_char_exec(a.as_slice(), '\x00');
        StreamToken::Finish(string_of(b.as_slice()))
    } else if starts_with_chars(s.as_slice(), lp.as_slice()) {
        let a = trim_start_seq_exec(s.as_slice(), lp.as_slice());
        let b = trim_end_char_exec(a.as_slice(), '\x00');
        StreamToken::Logprob(string_of(b.as_slice()))
    } else if starts_with_chars(s.as_slice(), tool.as_slice()) {
        let a = trim_start_seq_exec(s.as_slice(), tool.as_slice());
        let b = trim_end_char_exec(a.as_slice(), '\x00');
        StreamToken::ToolCalls(string_of(b.as_slice()))
    } else {
        StreamToken::Text(token)
    }
}

/// The token carrying a finish reason.
pub fn finish_token(reason: &str) -> (r: String)
    ensures
        r@ == finish_marker() + reason@ + "\x00"@,
{
    concat3("\x00FINISH:", reason, "\x00")
}

/// The token carrying log-probabilities (JSON).
pub fn logprob_token(json: &str) -> (r: String)
    ensures
        r@ == logprob_marker() + json@ + "\x00"@,
{
    concat3("\x00LP:", json, "\x00")
}

/// The token carrying tool calls (JSON).
pub fn tool_calls_token(json: &str) -> (r: String)
    ensures
        r@ == tool_marker() + json@ + "\x00"@,
{
    concat3("\x00TOOL_CALLS:", json, "\x00")
}

/// A payload without NUL characters comes back unchanged from its marker: what
/// the generator reports is what the handler reads.
pub proof fn lemma_marker_roundtrip(p: Seq<char>, payload: Seq<char>)
    requires
        p == finish_marker() || p == logprob_marker() || p == tool_marker(),
        forall|i: int| 0 <= i < payload.len() ==> payload[i] != '\x00',
    ensures
        marker_payload(p + payload + "\x00"@, p) == payload,
        starts_with(p + payload + "\x00"@, p),
{
    reveal_strlit("\x00FINISH:");
    reveal_strlit("\x00LP:");
    reveal_strlit("\x00TOOL_CALLS:");
    reveal_strlit("\x00");
    let s = p + payload + "\x00"@;
    assert(s.subrange(0, p.len() as int) =~= p);
    let rest = s.skip(p.len() as int);
    assert(rest =~= payload + "\x00"@);
    assert(!starts_with(rest, p)) by {
        if starts_with(rest, p) {
            assert(rest[0] == p[0]);
            assert(p[0] == '\x00');
            if payload.len() > 0 {
                assert(rest[0] == payload[0]);
            } else {
                assert(rest.len() == 1);
            }
        }
    }
    assert(trim_start_seq(s, p) == trim_start_seq(rest, p));
    assert(rest.drop_last() =~= payload);
    assert(trim_end_char(rest, '\x00') == trim_end_char(payload, '\x00'));
    if payload.len() > 0 {
        assert(payload.last() != '\x00');
    }
}

} // verus!
