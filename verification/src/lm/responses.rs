//! The Responses API: stored responses that carry their whole conversation, so
//! that a later request can continue it by naming the earlier response.

use vstd::prelude::*;
use crate::text::{concat3, owned, str_eq};
use crate::lm::models::{messages_view, ChatMessage, ContentView, MessageContent, MessageView};
use crate::lm::registry::NamedList;

verus! {

/// The new input of a request: a user text, or messages.
pub enum ResponseInput {
    Text(String),
    Messages(Vec<ResponseInputMessage>),
}

/// One turn of a stored conversation.
pub struct ResponseInputMessage {
    pub role: String,
    pub content: String,
}

/// A stored response: its output item, token usage, and the full conversation
/// (input and answer) for chaining.
pub struct StoredResponse {
    pub id: String,
    pub object: &'static str,
    pub created_at: u64,
    pub model: String,
    pub status: String,
    pub output: Vec<OutputItem>,
    pub usage: ResponseUsage,
    pub conversation: Vec<ResponseInputMessage>,
}

/// One output item of a response.
pub struct OutputItem {
    pub kind: &'static str,
    pub id: String,
    pub role: &'static str,
    pub content: Vec<OutputContent>,
}

/// The text of an output item.
pub struct OutputContent {
    pub kind: &'static str,
    pub text: String,
}

/// Token counts of a response.
pub struct ResponseUsage {
    pub input_tokens: usize,
    pub output_tokens: usize,
    pub total_tokens: usize,
}

/// The role and text of a turn.
pub open spec fn turn_view(m: ResponseInputMessage) -> (Seq<char>, Seq<char>) {
    (m.role@, m.content@)
}

/// The roles and texts of a conversation.
pub open spec fn turns_view(ms: Seq<ResponseInputMessage>) -> Seq<(Seq<char>, Seq<char>)> {
    ms.map_values(|m: ResponseInputMessage| turn_view(m))
}

/// Some turn has the role `system`.
pub open spec fn has_system(ts: Seq<(Seq<char>, Seq<char>)>) -> bool {
    exists|i: int| 0 <= i < ts.len() && (#[trigger] ts[i]).0 == "system"@
}

/// The turns a request's input adds.
pub open spec fn input_turns(input: ResponseInput) -> Seq<(Seq<char>, Seq<char>)> {
    match input {
        ResponseInput::Text(t) => seq![("user"@, t@)],
        ResponseInput::Messages(ms) => turns_view(ms@),
    }
}

/// The conversation a request runs on: the earlier one (if any), with the
/// instructions as a leading system turn when given and no system turn is
/// there yet, then the new input.
pub open spec fn conversation_for(
    earlier: Seq<(Seq<char>, Seq<char>)>,
    instructions: Option<Seq<char>>,
    input: Seq<(Seq<char>, Seq<char>)>,
) -> Seq<(Seq<char>, Seq<char>)> {
    let base = match instructions {
        Some(ins) => if has_system(earlier) {
            earlier
        } else {
            seq![("system"@, ins)] + earlier
        },
        None => earlier,
    };
    base + input
}

/// The message for a response id that is not stored.
pub open spec fn previous_not_found_text(id: Seq<char>) -> Seq<char> {
    "previous_response_id '"@ + id + "' not found"@
}

/// The message for a missing response.
pub open spec fn response_not_found_text(id: Seq<char>) -> Seq<char> {
    "Response '"@ + id + "' not found"@
}

/// A copy of a conversation.
fn clone_turns(ms: &Vec<ResponseInputMessage>) -> (r: Vec<ResponseInputMessage>)
    ensures
        turns_view(r@) == turns_view(ms@),
{
    let mut r: Vec<ResponseInputMessage> = Vec::new();
    let mut i: usize = 0;
    while i < ms.len()
        invariant
            0 <= i <= ms@.len(),
            turns_view(r@) == turns_view(ms@.take(i as int)),
        decreases ms@.len() - i,
    {
        let ghost before = r@;
        let m = ResponseInputMessage { role: ms[i].role.clone(), content: ms[i].content.clone() };
        r.push(m);
        assert(turns_view(r@) =~= turns_view(before).push(turn_view(ms@[i as int])));
        assert(turns_view(ms@.take(i + 1)) =~= turns_view(ms@.take(i as int)).push(
            turn_view(ms@[i as int]),
        ));
        i = i + 1;
    }
    assert(ms@.take(i as int) =~= ms@);
    r
}

/// Whether a conversation has a system turn.
fn any_system(ms: &Vec<ResponseInputMessage>) -> (r: bool)
    ensures
        r == has_system(turns_view(ms@)),
{
    let mut i: usize = 0;
    while i < ms.len()
        invariant
            0 <= i <= ms@.len(),
            forall|j: int| 0 <= j < i ==> (#[trigger] turns_view(ms@)[j]).0 != "system"@,
        decreases ms@.len() - i,
    {
        if str_eq(ms[i].role.as_str(), "system") {
            assert(turns_view(ms@)[i as int].0 == "system"@);
            return true;
        }
        i = i + 1;
    }
    false
}

/// The input of a request adds its turns in order, each keeping its role and
/// text: a plain text is one user turn, and a list of messages gives one turn
/// per message.
pub proof fn lemma_input_turns(input: ResponseInput)
    ensures
        input matches ResponseInput::Text(t) ==> input_turns(input) == seq![("user"@, t@)],
        input matches ResponseInput::Messages(ms) ==> input_turns(input).len() == ms@.len()
            && forall|i: int|
            0 <= i < ms@.len() ==> #[trigger] input_turns(input)[i] == (ms@[i].role@, ms@[i].content@),
{
}

/// Without an earlier response, the conversation is the input's turns in
/// order, after the instructions as a system turn when they are given.
pub proof fn lemma_fresh_conversation(instructions: Option<Seq<char>>, input: ResponseInput)
    ensures
        instructions is None ==> conversation_for(Seq::empty(), instructions, input_turns(input))
            == input_turns(input),
        instructions matches Some(ins) ==> conversation_for(
            Seq::empty(),
            instructions,
            input_turns(input),
        ) == seq![("system"@, ins)] + input_turns(input),
        input matches ResponseInput::Messages(ms) ==> conversation_for(
            Seq::empty(),
            instructions,
            input_turns(input),
        ).len() == ms@.len() + (if instructions is Some { 1int } else { 0int }),
{
    assert(Seq::<(Seq<char>, Seq<char>)>::empty() + input_turns(input) =~= input_turns(input));
    if let Some(ins) = instructions {
        assert(seq![("system"@, ins)] + Seq::<(Seq<char>, Seq<char>)>::empty() =~= seq![("system"@, ins)]);
    }
}

/// The stored responses, by id.
pub type ResponseStore = NamedList<StoredResponse>;

/// The conversation a request runs on (see `conversation_for`), or the
/// refusal when it names an earlier response that is not stored.
pub fn build_conversation(
    store: &ResponseStore,
    previous_response_id: Option<&str>,
    instructions: Option<String>,
    input: ResponseInput,
) -> (r: Result<Vec<ResponseInputMessage>, String>)
    requires
        store.wf(),
    ensures
        match previous_response_id {
            Some(id) => match r {
                Ok(c) => exists|i: int|
                    0 <= i < store.keys().len() && store.keys()[i] == id@ && turns_view(c@)
                        == conversation_for(
                        turns_view(store.values()[i].conversation@),
                        match instructions {
                            Some(s) => Some(s@),
                            None => None,
                        },
                        input_turns(input),
                    ),
                Err(m) => !store.has(id@) && m@ == previous_not_found_text(id@),
            },
            None => r matches Ok(c) && turns_view(c@) == conversation_for(
                Seq::empty(),
                match instructions {
                    Some(s) => Some(s@),
                    None => None,
                },
                input_turns(input),
            ),
        },
{
    let ghost ins = match &instructions {
        Some(s) => Some(s@),
        None => None::<Seq<char>>,
    };
    let ghost inp = input_turns(input);
    let ghost mut earlier: Seq<(Seq<char>, Seq<char>)> = Seq::empty();
    let mut conversation: Vec<ResponseInputMessage> = match previous_response_id {
        Some(id) => match store.get(id) {
            Some(prev) => {
                proof {
                    earlier = turns_view(prev.conversation@);
                }
                clone_turns(&prev.conversation)
            },
            None => {
                return Err(concat3("previous_response_id '", id, "' not found"));
            },
        },
        None => {
            let v: Vec<ResponseInputMessage> = Vec::new();
            assert(turns_view(v@) =~= Seq::<(Seq<char>, Seq<char>)>::empty());
            v
        },
    };
    assert(turns_view(conversation@) == earlier);
    if let Some(text) = instructions {
        if !any_system(&conversation) {
            let ghost before = conversation@;
            conversation.insert(0, ResponseInputMessage { role: owned("system"), content: text });
            assert(turns_view(conversation@) =~= seq![("system"@, ins->0)] + turns_view(before));
        }
    }
    let ghost base = turns_view(conversation@);
    match input {
        ResponseInput::Text(text) => {
            conversation.push(ResponseInputMessage { role: owned("user"), content: text });
            assert(turns_view(conversation@) =~= base + inp);
        },
        ResponseInput::Messages(msgs) => {
            let mut i: usize = 0;
            while i < msgs.len()
                invariant
                    0 <= i <= msgs@.len(),
                    inp == turns_view(msgs@),
                    turns_view(conversation@) == base + turns_view(msgs@).take(i as int),
                decreases msgs@.len() - i,
            {
                let ghost before = conversation@;
                let m = ResponseInputMessage {
                    role: msgs[i].role.clone(),
                    content: msgs[i].content.clone(),
                };
                conversation.push(m);
                assert(turns_view(conversation@) =~= turns_view(before).push(
                    turn_view(msgs@[i as int]),
                ));
                assert(turns_view(msgs@).take(i + 1) =~= turns_view(msgs@).take(i as int).push(
                    turn_view(msgs@[i as int]),
                ));
                i = i + 1;
            }
            assert(turns_view(msgs@).take(i as int) =~= turns_view(msgs@));
        },
    }
    Ok(conversation)
}

/// The chat message of a turn.
pub open spec fn turn_message(t: (Seq<char>, Seq<char>)) -> MessageView {
    MessageView { role: t.0, content: ContentView::Text(t.1) }
}

/// The conversation as chat messages with plain-text bodies.
pub fn to_chat_messages(conversation: &Vec<ResponseInputMessage>) -> (r: Vec<ChatMessage>)
    ensures
        messages_view(r@) == turns_view(conversation@).map_values(
            |t: (Seq<char>, Seq<char>)| turn_message(t),
        ),
{
    let mut r: Vec<ChatMessage> = Vec::new();
    let mut i: usize = 0;
    while i < conversation.len()
        invariant
            0 <= i <= conversation@.len(),
            messages_view(r@) == turns_view(conversation@).take(i as int).map_values(
                |t: (Seq<char>, Seq<char>)| turn_message(t),
            ),
        decreases conversation@.len() - i,
    {
        let ghost before = r@;
        let m = ChatMessage {
            role: conversation[i].role.clone(),
            content: MessageContent::Text(conversation[i].content.clone()),
        };
        r.push(m);
        assert(messages_view(r@) =~= messages_view(before).push(m@));
        assert(turns_view(conversation@).take(i + 1).map_values(
            |t: (Seq<char>, Seq<char>)| turn_message(t),
        ) =~= turns_view(conversation@).take(i as int).map_values(
            |t: (Seq<char>, Seq<char>)| turn_message(t),
        ).push(turn_message(turn_view(conversation@[i as int]))));
        i = i + 1;
    }
    assert(turns_view(conversation@).take(i as int) =~= turns_view(conversation@));
    r
}

/// The stored response for an answer: one assistant message item holding
/// the text, the usage, and the conversation followed by the assistant's
/// answer.
pub fn complete_response(
    id: String,
    item_id: String,
    created_at: u64,
    model: String,
    conversation: Vec<ResponseInputMessage>,
    content: String,
    prompt_tokens: usize,
    completion_tokens: usize,
) -> (r: StoredResponse)
    requires
        prompt_tokens + completion_tokens <= usize::MAX,
    ensures
        r.id@ == id@,
        r.object@ == "response"@,
        r.created_at == created_at,
        r.model@ == model@,
        r.status@ == "completed"@,
        r.output@.len() == 1,
        r.output@[0].kind@ == "message"@,
        r.output@[0].id@ == item_id@,
        r.output@[0].role@ == "assistant"@,
        r.output@[0].content@.len() == 1,
        r.output@[0].content@[0].kind@ == "output_text"@,
        r.output@[0].content@[0].text@ == content@,
        r.usage.input_tokens == prompt_tokens,
        r.usage.output_tokens == completion_tokens,
        r.usage.total_tokens == prompt_tokens + completion_tokens,
        turns_view(r.conversation@) == turns_view(conversation@).push(("assistant"@, content@)),
{
    let mut conversation = conversation;
    let ghost before = conversation@;
    conversation.push(ResponseInputMessage { role: owned("assistant"), content: content.clone() });
    assert(turns_view(conversation@) =~= turns_view(before).push(("assistant"@, content@)));
    let mut parts: Vec<OutputContent> = Vec::new();
    parts.push(OutputContent { kind: "output_text", text: content });
    let mut output: Vec<OutputItem> = Vec::new();
    output.push(OutputItem { kind: "message", id: item_id, role: "assistant", content: parts });
    StoredResponse {
        id,
        object: "response",
        created_at,
        model,
        status: owned("completed"),
        output,
        usage: ResponseUsage {
            input_tokens: prompt_tokens,
            output_tokens: completion_tokens,
            total_tokens: prompt_tokens + completion_tokens,
        },
        conversation,
    }
}

/// The refusal for a response id that is not stored.
pub fn response_not_found(id: &str) -> (r: String)
    ensures
        r@ == response_not_found_text(id@),
{
    concat3("Response '", id, "' not found")
}

/// A chained request continues the stored conversation: the conversation it
/// runs on starts with every turn of the earlier response (its input and its
/// answer), unless instructions are given and the earlier conversation had no
/// system turn, in which case the instructions come first; the new input
/// follows.
pub proof fn lemma_chaining_keeps_history(
    earlier: Seq<(Seq<char>, Seq<char>)>,
    answer: Seq<char>,
    instructions: Option<Seq<char>>,
    input: Seq<(Seq<char>, Seq<char>)>,
)
    ensures
        (instructions is None || has_system(earlier.push(("assistant"@, answer)))) ==> conversation_for(
            earlier.push(("assistant"@, answer)),
            instructions,
            input,
        ) == earlier.push(("assistant"@, answer)) + input,
        conversation_for(earlier.push(("assistant"@, answer)), instructions, input).len()
            >= earlier.len() + 1 + input.len(),
        conversation_for(earlier.push(("assistant"@, answer)), instructions, input).skip(
            conversation_for(earlier.push(("assistant"@, answer)), instructions, input).len()
                - input.len(),
        ) == input,
{
    let h = earlier.push(("assistant"@, answer));
    let c = conversation_for(h, instructions, input);
    let base = match instructions {
        Some(ins) => if has_system(h) {
            h
        } else {
            seq![("system"@, ins)] + h
        },
        None => h,
    };
    assert(c == base + input);
    assert(c.skip(c.len() - input.len()) =~= input);
}

} // verus!
