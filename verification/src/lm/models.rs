//! Request and response types of the language-model server, and the
//! operations on them.

use vstd::prelude::*;
use crate::ids::{is_prefixed_hex_id, prefixed_random_id, unix_time_secs};
use crate::text::{str_eq, owned};

verus! {

/// Seconds since the Unix epoch (zero when the clock reads earlier); the
/// server's clock as `ids::now_secs` reads it.
pub fn now_secs_pub() -> u64 {
    crate::ids::now_secs()
}

// ── Shared ──────────────────────────────────────────────────────────────────

/// One part of a multimodal message: text or an image reference.
pub struct ContentPart {
    pub kind: String,
    pub text: Option<String>,
    pub image_url: Option<ImageUrlRef>,
}

/// A reference to an image by URL (possibly a `data:` URL).
pub struct ImageUrlRef {
    pub url: String,
}

/// A message body: plain text, or a list of typed parts.
pub enum MessageContent {
    Text(String),
    Parts(Vec<ContentPart>),
}

/// What a content part holds.
pub struct PartView {
    pub kind: Seq<char>,
    pub text: Option<Seq<char>>,
    pub image_url: Option<Seq<char>>,
}

/// What a message body holds.
pub enum ContentView {
    Text(Seq<char>),
    Parts(Seq<PartView>),
}

/// What a chat message holds.
pub struct MessageView {
    pub role: Seq<char>,
    pub content: ContentView,
}

impl View for ContentPart {
    type V = PartView;

    open spec fn view(&self) -> PartView {
        PartView {
            kind: self.kind@,
            text: match self.text {
                Some(t) => Some(t@),
                None => None,
            },
            image_url: match self.image_url {
                Some(u) => Some(u.url@),
                None => None,
            },
        }
    }
}

/// The views of a list of parts.
pub open spec fn parts_view(parts: Seq<ContentPart>) -> Seq<PartView> {
    parts.map_values(|p: ContentPart| p@)
}

impl View for MessageContent {
    type V = ContentView;

    open spec fn view(&self) -> ContentView {
        match self {
            MessageContent::Text(s) => ContentView::Text(s@),
            MessageContent::Parts(parts) => ContentView::Parts(parts_view(parts@)),
        }
    }
}

impl View for ChatMessage {
    type V = MessageView;

    open spec fn view(&self) -> MessageView {
        MessageView { role: self.role@, content: self.content@ }
    }
}

/// The views of a list of messages.
pub open spec fn messages_view(msgs: Seq<ChatMessage>) -> Seq<MessageView> {
    msgs.map_values(|m: ChatMessage| m@)
}

/// The text of a part: its `text` when the part is of type `text`, nothing otherwise.
pub open spec fn part_text(p: PartView) -> Seq<char> {
    if p.kind == "text"@ && p.text is Some {
        p.text->0
    } else {
        Seq::empty()
    }
}

/// The texts of the text parts, joined without separator.
pub open spec fn parts_text(parts: Seq<PartView>) -> Seq<char>
    decreases parts.len(),
{
    if parts.len() == 0 {
        Seq::empty()
    } else {
        parts_text(parts.drop_last()) + part_text(parts.last())
    }
}

/// The image URL of a part, as a list: one URL for an `image_url` part that has one.
pub open spec fn part_image_urls(p: PartView) -> Seq<Seq<char>> {
    if p.kind == "image_url"@ && p.image_url is Some {
        seq![p.image_url->0]
    } else {
        Seq::empty()
    }
}

/// The image URLs of the `image_url` parts, in order.
pub open spec fn parts_image_urls(parts: Seq<PartView>) -> Seq<Seq<char>>
    decreases parts.len(),
{
    if parts.len() == 0 {
        Seq::empty()
    } else {
        parts_image_urls(parts.drop_last()) + part_image_urls(parts.last())
    }
}

/// The text a message body carries.
pub open spec fn content_text(c: ContentView) -> Seq<char> {
    match c {
        ContentView::Text(s) => s,
        ContentView::Parts(parts) => parts_text(parts),
    }
}

/// The image URLs a message body carries.
pub open spec fn content_image_urls(c: ContentView) -> Seq<Seq<char>> {
    match c {
        ContentView::Text(_) => Seq::empty(),
        ContentView::Parts(parts) => parts_image_urls(parts),
    }
}

/// The views of a list of strings.
pub open spec fn string_views(v: Seq<String>) -> Seq<Seq<char>> {
    v.map_values(|s: String| s@)
}

impl Clone for ImageUrlRef {
    fn clone(&self) -> (r: Self)
        ensures
            r == *self,
    {
        ImageUrlRef { url: self.url.clone() }
    }
}

impl Clone for ContentPart {
    fn clone(&self) -> (r: Self)
        ensures
            r == *self,
    {
        ContentPart {
            kind: self.kind.clone(),
            text: match &self.text {
                Some(t) => Some(t.clone()),
                None => None,
            },
            image_url: match &self.image_url {
                Some(u) => Some(u.clone()),
                None => None,
            },
        }
    }
}

impl Clone for MessageContent {
    fn clone(&self) -> (r: Self)
        ensures
            r@ == self@,
    {
        match self {
            MessageContent::Text(s) => MessageContent::Text(s.clone()),
            MessageContent::Parts(parts) => {
                let mut out: Vec<ContentPart> = Vec::new();
                let mut i: usize = 0;
                while i < parts.len()
                    invariant
                        0 <= i <= parts@.len(),
                        out@ == parts@.subrange(0, i as int),
                    decreases parts@.len() - i,
                {
                    out.push(parts[i].clone());
                    assert(out@ =~= parts@.subrange(0, i + 1));
                    i = i + 1;
                }
                assert(out@ =~= parts@);
                MessageContent::Parts(out)
            },
        }
    }
}

/// Whether a part is of the given type.
fn kind_is(p: &ContentPart, kind: &str) -> (r: bool)
    ensures
        r == (p.kind@ == kind@),
{
    str_eq(p.kind.as_str(), kind)
}

impl MessageContent {
    /// The text of the message: the string itself, or the texts of the text
    /// parts joined without separator.
    pub fn as_text(&self) -> (r: String)
        ensures
            r@ == content_text(self@),
    {
        match self {
            MessageContent::Text(s) => s.clone(),
            MessageContent::Parts(parts) => {
                let mut out = String::new();
                let mut i: usize = 0;
                assert(parts_view(parts@.subrange(0, 0)) =~= Seq::<PartView>::empty());
                while i < parts.len()
                    invariant
                        0 <= i <= parts@.len(),
                        out@ == parts_text(parts_view(parts@.subrange(0, i as int))),
                    decreases parts@.len() - i,
                {
                    let p = &parts[i];
                    assert(parts_view(parts@.subrange(0, i + 1)).drop_last() =~= parts_view(
                        parts@.subrange(0, i as int),
                    ));
                    assert(parts_view(parts@.subrange(0, i + 1)).last() == p@);
                    if kind_is(p, "text") {
                        match &p.text {
                            Some(t) => {
                                out.append(t.as_str());
                            },
                            None => {
                                assert(out@ =~= out@ + Seq::<char>::empty());
                            },
                        }
                    } else {
                        assert(out@ =~= out@ + Seq::<char>::empty());
                    }
                    i = i + 1;
                }
                assert(parts@.subrange(0, parts@.len() as int) =~= parts@);
                out
            },
        }
    }

    /// The URLs of the `image_url` parts, in order; none for plain text.
    pub fn image_urls(&self) -> (r: Vec<String>)
        ensures
            string_views(r@) == content_image_urls(self@),
    {
        match self {
            MessageContent::Text(_) => {
                let v: Vec<String> = Vec::new();
                assert(string_views(v@) =~= Seq::<Seq<char>>::empty());
                v
            },
            MessageContent::Parts(parts) => {
                let mut out: Vec<String> = Vec::new();
                let mut i: usize = 0;
                assert(parts_view(parts@.subrange(0, 0)) =~= Seq::<PartView>::empty());
                assert(string_views(out@) =~= parts_image_urls(parts_view(parts@.subrange(0, 0))));
                while i < parts.len()
                    invariant
                        0 <= i <= parts@.len(),
                        string_views(out@) == parts_image_urls(
                            parts_view(parts@.subrange(0, i as int)),
                        ),
                    decreases parts@.len() - i,
                {
                    let p = &parts[i];
                    assert(parts_view(parts@.subrange(0, i + 1)).drop_last() =~= parts_view(
                        parts@.subrange(0, i as int),
                    ));
                    assert(parts_view(parts@.subrange(0, i + 1)).last() == p@);
                    let ghost before = out@;
                    if kind_is(p, "image_url") {
                        match &p.image_url {
                            Some(u) => {
                                out.push(u.url.clone());
                                assert(string_views(out@) =~= string_views(before) + seq![
                                    u.url@,
                                ]);
                            },
                            None => {
                                assert(string_views(out@) =~= string_views(out@)
                                    + Seq::<Seq<char>>::empty());
                            },
                        }
                    } else {
                        assert(string_views(out@) =~= string_views(out@)
                            + Seq::<Seq<char>>::empty());
                    }
                    i = i + 1;
                }
                assert(parts@.subrange(0, parts@.len() as int) =~= parts@);
                out
            },
        }
    }

    /// The message carries at least one image URL.
    pub fn has_images(&self) -> (r: bool)
        ensures
            r == (content_image_urls(self@).len() > 0),
    {
        let urls = self.image_urls();
        urls.len() > 0
    }
}

/// A chat message: a role (`system`, `user`, `assistant`, ...) and a body.
pub struct ChatMessage {
    pub role: String,
    pub content: MessageContent,
}

impl Clone for ChatMessage {
    fn clone(&self) -> (r: Self)
        ensures
            r@ == self@,
    {
        ChatMessage { role: self.role.clone(), content: self.content.clone() }
    }
}

/// A message with a plain-text body.
pub fn text_message(role: &str, text: String) -> (m: ChatMessage)
    ensures
        m.role@ == role@,
        m.content@ == ContentView::Text(text@),
{
    ChatMessage { role: owned(role), content: MessageContent::Text(text) }
}

/// Token counts of a request.
pub struct Usage {
    pub prompt_tokens: usize,
    pub completion_tokens: usize,
    pub total_tokens: usize,
}

/// One stop string or several.
pub enum StopSequence {
    Single(String),
    Multiple(Vec<String>),
}

/// The stop strings a request names, in order (none when it names none).
pub fn stop_strings(stop: &Option<StopSequence>) -> (r: Vec<String>)
    ensures
        match stop {
            Some(StopSequence::Single(s)) => r@ == seq![*s],
            Some(StopSequence::Multiple(v)) => r@ == v@,
            None => r@.len() == 0,
        },
{
    match stop {
        Some(StopSequence::Single(s)) => {
            let mut v = Vec::new();
            v.push(s.clone());
            assert(v@ =~= seq![*s]);
            v
        },
        Some(StopSequence::Multiple(v)) => v.clone(),
        None => Vec::new(),
    }
}

/// The function a tool call invokes and its JSON arguments text.
pub struct ToolCallFunction {
    pub name: String,
    pub arguments: String,
}

/// A call of a tool requested by the model.
pub struct ToolCall {
    pub id: String,
    pub kind: String,
    pub function: ToolCallFunction,
}

impl ToolCall {
    /// A `function` call of `name` with the JSON text `arguments` and a fresh
    /// id `call_` followed by eight lowercase hexadecimal digits.
    pub fn new(name: String, arguments: String) -> (r: Self)
        ensures
            is_prefixed_hex_id(r.id@, "call_"@, 8),
            r.kind@ == "function"@,
            r.function.name == name,
            r.function.arguments == arguments,
    {
        ToolCall {
            id: prefixed_random_id("call_", 8),
            kind: owned("function"),
            function: ToolCallFunction { name, arguments },
        }
    }
}

/// The change a streamed chunk carries.
pub struct Delta {
    pub role: Option<String>,
    pub content: Option<String>,
    pub reasoning_content: Option<String>,
    pub tool_calls: Option<Vec<ToolCall>>,
}

// ── Text completions ────────────────────────────────────────────────────────

/// A string or a list of strings.
pub enum StringOrArray {
    Single(String),
    Multiple(Vec<String>),
}

/// The first string: the single one, the first of the list, or empty for an empty list.
pub open spec fn first_string(s: StringOrArray) -> Seq<char> {
    match s {
        StringOrArray::Single(x) => x@,
        StringOrArray::Multiple(v) => if v.len() > 0 {
            v[0]@
        } else {
            Seq::empty()
        },
    }
}

impl StringOrArray {
    /// The first string: the single one, the first of the list, or `""`.
    pub fn first(&self) -> (r: &str)
        ensures
            r@ == first_string(*self),
    {
        match self {
            StringOrArray::Single(s) => s.as_str(),
            StringOrArray::Multiple(v) => {
                if v.len() > 0 {
                    v[0].as_str()
                } else {
                    proof {
                        reveal_strlit("");
                    }
                    ""
                }
            },
        }
    }

    /// All the strings, in order.
    pub fn all(&self) -> (r: Vec<String>)
        ensures
            match self {
                StringOrArray::Single(s) => r@ == seq![*s],
                StringOrArray::Multiple(v) => r@ == v@,
            },
    {
        match self {
            StringOrArray::Single(s) => {
                let mut v = Vec::new();
                v.push(s.clone());
                assert(v@ =~= seq![*s]);
                v
            },
            StringOrArray::Multiple(v) => v.clone(),
        }
    }
}

/// A text completion answer.
pub struct CompletionResponse {
    pub id: String,
    pub object: &'static str,
    pub created: u64,
    pub model: String,
    pub choices: Vec<CompletionChoice>,
    pub usage: Usage,
}

/// One completion.
pub struct CompletionChoice {
    pub text: String,
    pub index: u32,
    pub finish_reason: Option<String>,
}

impl CompletionResponse {
    /// A `text_completion` with one choice: `text`, index 0, finish reason `stop`,
    /// created at `created`.
    pub fn new_at(id: String, model: String, text: String, usage: Usage, created: u64) -> (r: Self)
        ensures
            r.id == id,
            r.object@ == "text_completion"@,
            r.model == model,
            r.choices@.len() == 1,
            r.choices@[0].text == text,
            r.choices@[0].index == 0,
            r.choices@[0].finish_reason matches Some(f) && f@ == "stop"@,
            r.usage == usage,
            r.created == created,
    {
        let mut choices = Vec::new();
        choices.push(CompletionChoice { text, index: 0, finish_reason: Some(owned("stop")) });
        CompletionResponse {
            id,
            object: "text_completion",
            created,
            model,
            choices,
            usage,
        }
    }

    /// A `text_completion` with one choice: `text`, index 0, finish reason `stop`,
    /// created now.
    pub fn new(id: String, model: String, text: String, usage: Usage) -> (r: Self)
        ensures
            r.id == id,
            r.object@ == "text_completion"@,
            r.model == model,
            r.choices@.len() == 1,
            r.choices@[0].text == text,
            r.choices@[0].index == 0,
            r.choices@[0].finish_reason matches Some(f) && f@ == "stop"@,
            r.usage == usage,
    {
        Self::new_at(id, model, text, usage, unix_time_secs())
    }
}

/// A tokenization request.
pub struct TokenizeRequest {
    pub model: Option<String>,
    pub prompt: String,
}

/// The tokens of a prompt and their number.
pub struct TokenizeResponse {
    pub tokens: Vec<i64>,
    pub count: usize,
}

impl TokenizeResponse {
    /// The response for `tokens`: the tokens and their count.
    pub fn of(tokens: Vec<i64>) -> (r: Self)
        ensures
            r.tokens == tokens,
            r.count == tokens@.len(),
    {
        let count = tokens.len();
        TokenizeResponse { tokens, count }
    }
}

/// An embeddings request.
pub struct EmbeddingRequest {
    pub model: String,
    pub input: StringOrArray,
    pub encoding_format: Option<String>,
}

// ── Anthropic Messages API ──────────────────────────────────────────────────

/// A message in the Anthropic format.
pub struct AnthropicMessage {
    pub role: String,
    pub content: AnthropicContent,
}

/// A message body in the Anthropic format: text or content blocks.
pub enum AnthropicContent {
    Text(String),
    Blocks(Vec<ContentBlock>),
}

/// Where an image block's data comes from.
pub struct ContentBlockSource {
    pub kind: String,
    pub url: Option<String>,
    pub data: Option<String>,
    pub media_type: Option<String>,
}

/// A content block: text, image, ...
pub struct ContentBlock {
    pub kind: String,
    pub text: Option<String>,
    pub source: Option<ContentBlockSource>,
}

/// The text of a block: its `text` when the block is of type `text`.
pub open spec fn block_text(b: ContentBlock) -> Seq<char> {
    if b.kind@ == "text"@ && b.text is Some {
        b.text->0@
    } else {
        Seq::empty()
    }
}

/// The texts of the text blocks, joined without separator.
pub open spec fn blocks_text(blocks: Seq<ContentBlock>) -> Seq<char>
    decreases blocks.len(),
{
    if blocks.len() == 0 {
        Seq::empty()
    } else {
        blocks_text(blocks.drop_last()) + block_text(blocks.last())
    }
}

/// The URL of an `image` block whose source names one.
pub open spec fn block_image_urls(b: ContentBlock) -> Seq<Seq<char>> {
    if b.kind@ == "image"@ && b.source is Some && b.source->0.url is Some {
        seq![b.source->0.url->0@]
    } else {
        Seq::empty()
    }
}

/// The URLs of the image blocks, in order.
pub open spec fn blocks_image_urls(blocks: Seq<ContentBlock>) -> Seq<Seq<char>>
    decreases blocks.len(),
{
    if blocks.len() == 0 {
        Seq::empty()
    } else {
        blocks_image_urls(blocks.drop_last()) + block_image_urls(blocks.last())
    }
}

/// The text an Anthropic message body carries.
pub open spec fn anthropic_text(c: AnthropicContent) -> Seq<char> {
    match c {
        AnthropicContent::Text(s) => s@,
        AnthropicContent::Blocks(b) => blocks_text(b@),
    }
}

/// The image URLs an Anthropic message body carries.
pub open spec fn anthropic_image_urls(c: AnthropicContent) -> Seq<Seq<char>> {
    match c {
        AnthropicContent::Text(_) => Seq::empty(),
        AnthropicContent::Blocks(b) => blocks_image_urls(b@),
    }
}

impl AnthropicContent {
    /// The text: the string itself, or the texts of the text blocks joined
    /// without separator.
    pub fn as_text(&self) -> (r: String)
        ensures
            r@ == anthropic_text(*self),
    {
        match self {
            AnthropicContent::Text(s) => s.clone(),
            AnthropicContent::Blocks(blocks) => {
                let mut out = String::new();
                let mut i: usize = 0;
                while i < blocks.len()
                    invariant
                        0 <= i <= blocks@.len(),
                        out@ == blocks_text(blocks@.subrange(0, i as int)),
                    decreases blocks@.len() - i,
                {
                    let b = &blocks[i];
                    assert(blocks@.subrange(0, i + 1).drop_last() =~= blocks@.subrange(
                        0,
                        i as int,
                    ));
                    if str_eq(b.kind.as_str(), "text") {
                        match &b.text {
                            Some(t) => {
                                out.append(t.as_str());
                            },
                            None => {
                                assert(out@ =~= out@ + Seq::<char>::empty());
                            },
                        }
                    } else {
                        assert(out@ =~= out@ + Seq::<char>::empty());
                    }
                    i = i + 1;
                }
                assert(blocks@.subrange(0, blocks@.len() as int) =~= blocks@);
                out
            },
        }
    }

    /// The URLs of the `image` blocks whose source names a URL, in order.
    pub fn image_urls(&self) -> (r: Vec<String>)
        ensures
            string_views(r@) == anthropic_image_urls(*self),
    {
        match self {
            AnthropicContent::Text(_) => {
                let v: Vec<String> = Vec::new();
                assert(string_views(v@) =~= Seq::<Seq<char>>::empty());
                v
            },
            AnthropicContent::Blocks(blocks) => {
                let mut out: Vec<String> = Vec::new();
                let mut i: usize = 0;
                assert(string_views(out@) =~= blocks_image_urls(blocks@.subrange(0, 0)));
                while i < blocks.len()
                    invariant
                        0 <= i <= blocks@.len(),
                        string_views(out@) == blocks_image_urls(blocks@.subrange(0, i as int)),
                    decreases blocks@.len() - i,
                {
                    let b = &blocks[i];
                    assert(blocks@.subrange(0, i + 1).drop_last() =~= blocks@.subrange(
                        0,
                        i as int,
                    ));
                    let ghost before = out@;
                    let mut pushed = false;
                    if str_eq(b.kind.as_str(), "image") {
                        match &b.source {
                            Some(src) => match &src.url {
                                Some(u) => {
                                    out.push(u.clone());
                                    pushed = true;
                                    assert(string_views(out@) =~= string_views(before) + seq![
                                        u@,
                                    ]);
                                },
                                None => {},
                            },
                            None => {},
                        }
                    }
                    if !pushed {
                        assert(string_views(out@) =~= string_views(out@)
                            + Seq::<Seq<char>>::empty());
                    }
                    i = i + 1;
                }
                assert(blocks@.subrange(0, blocks@.len() as int) =~= blocks@);
                out
            },
        }
    }
}

/// A reply in the Anthropic format.
pub struct AnthropicResponse {
    pub id: String,
    pub kind: &'static str,
    pub role: &'static str,
    pub content: Vec<ContentBlock>,
    pub model: String,
    pub stop_reason: Option<String>,
    pub stop_sequence: Option<String>,
    pub usage: AnthropicUsage,
}

/// Token counts in the Anthropic format.
pub struct AnthropicUsage {
    pub input_tokens: usize,
    pub output_tokens: usize,
}

impl AnthropicResponse {
    /// An assistant `message` with one text block, stop reason `end_turn`.
    pub fn new(
        id: String,
        model: String,
        text: String,
        input_tokens: usize,
        output_tokens: usize,
    ) -> (r: Self)
        ensures
            r.id == id,
            r.kind@ == "message"@,
            r.role@ == "assistant"@,
            r.content@.len() == 1,
            r.content@[0].kind@ == "text"@,
            r.content@[0].text == Some(text),
            r.content@[0].source is None,
            r.model == model,
            r.stop_reason matches Some(s) && s@ == "end_turn"@,
            r.stop_sequence is None,
            r.usage.input_tokens == input_tokens,
            r.usage.output_tokens == output_tokens,
    {
        let mut content = Vec::new();
        content.push(ContentBlock { kind: owned("text"), text: Some(text), source: None });
        AnthropicResponse {
            id,
            kind: "message",
            role: "assistant",
            content,
            model,
            stop_reason: Some(owned("end_turn")),
            stop_sequence: None,
            usage: AnthropicUsage { input_tokens, output_tokens },
        }
    }
}

// ── Model management ────────────────────────────────────────────────────────

/// A request to load a model, optionally with an adapter and a draft model.
pub struct ModelLoadRequest {
    pub model: String,
    pub adapter: Option<String>,
    pub drafter: Option<String>,
}

/// A model entry of a model list.
pub struct ModelObject {
    pub id: String,
    pub object: &'static str,
    pub created: u64,
    pub owned_by: String,
}

impl ModelObject {
    /// The entry for the model `id`, owned by `mlx-lm-server`, created at
    /// `created`.
    pub fn new_at(id: String, created: u64) -> (r: Self)
        ensures
            r.id == id,
            r.object@ == "model"@,
            r.owned_by@ == "mlx-lm-server"@,
            r.created == created,
    {
        ModelObject { id, object: "model", created, owned_by: owned("mlx-lm-server") }
    }

    /// The entry for the model `id`, owned by `mlx-lm-server`, created now.
    pub fn new(id: String) -> (r: Self)
        ensures
            r.id == id,
            r.object@ == "model"@,
            r.owned_by@ == "mlx-lm-server"@,
    {
        Self::new_at(id, unix_time_secs())
    }
}

/// A list of models.
pub struct ModelList {
    pub object: &'static str,
    pub data: Vec<ModelObject>,
}

impl ModelList {
    /// The `list` of the given entries.
    pub fn new(data: Vec<ModelObject>) -> (r: Self)
        ensures
            r.object@ == "list"@,
            r.data == data,
    {
        ModelList { object: "list", data }
    }
}

/// Liveness and the loaded model.
pub struct HealthResponse {
    pub status: &'static str,
    pub model_loaded: bool,
    pub current_model: Option<String>,
}

impl HealthResponse {
    /// `ok`, with whether a model is loaded and which.
    pub fn of(current_model: Option<String>) -> (r: Self)
        ensures
            r.status@ == "ok"@,
            r.model_loaded == current_model is Some,
            r.current_model == current_model,
    {
        HealthResponse { status: "ok", model_loaded: current_model.is_some(), current_model }
    }
}

// ── Adapters ────────────────────────────────────────────────────────────────

/// A request to mount a LoRA adapter under a name.
pub struct AdapterMountRequest {
    pub name: String,
    pub adapter_path: String,
    pub model: Option<String>,
}

/// A mounted adapter as listed.
pub struct MountedAdapterInfo {
    pub name: String,
    pub base_model: String,
    pub adapter_path: String,
    pub mounted_at: u64,
}

/// The list of mounted adapters.
pub struct AdapterListResponse {
    pub object: &'static str,
    pub adapters: Vec<MountedAdapterInfo>,
}

/// A request to fuse an adapter into its base model.
pub struct FuseRequest {
    pub adapter: String,
    pub output: Option<String>,
    pub export_gguf: bool,
    pub dequantize: bool,
    pub upload_repo: Option<String>,
}

/// Where a fused model went.
pub struct FuseResponse {
    pub output_path: String,
    pub gguf_path: Option<String>,
    pub uploaded_to: Option<String>,
}

/// A request to convert a model to MLX format.
pub struct ConvertRequest {
    pub model: String,
    pub output: Option<String>,
    pub quantize_bits: Option<u32>,
    pub quantize_group_size: Option<u32>,
    pub upload_repo: Option<String>,
    pub hf_token: Option<String>,
}

/// Where a converted model went.
pub struct ConvertResponse {
    pub output_path: String,
    pub uploaded_to: Option<String>,
}

/// A model found on the HuggingFace hub.
pub struct HfModel {
    pub id: String,
    pub model_id: String,
    pub pipeline_tag: String,
    pub downloads: u64,
    pub likes: u64,
    pub size_bytes: Option<u64>,
    pub cached: bool,
}

// ── Pipelines ───────────────────────────────────────────────────────────────

/// The outcome of one pipeline step.
pub struct PipelineStepResult {
    pub name: Option<String>,
    pub output: String,
    pub prompt_tokens: usize,
    pub completion_tokens: usize,
}

/// The outcome of a pipeline.
pub struct PipelineResponse {
    pub steps: Vec<PipelineStepResult>,
    pub output: String,
    pub model: String,
    pub total_prompt_tokens: usize,
    pub total_completion_tokens: usize,
}

// ── Rerank ──────────────────────────────────────────────────────────────────

/// A request to order documents by relevance to a query.
pub struct RerankRequest {
    pub model: Option<String>,
    pub query: String,
    pub documents: Vec<String>,
    pub top_n: Option<usize>,
    pub return_documents: bool,
}

// ── Batches ─────────────────────────────────────────────────────────────────

/// How many requests of a batch there are, and how many completed or failed.
pub struct BatchRequestCounts {
    pub total: usize,
    pub completed: usize,
    pub failed: usize,
}

} // verus!
