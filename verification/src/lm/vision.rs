//! Requests beside plain chat: the text prompt and image sources of a vision
//! request, and the bookkeeping of reranking and embeddings.

use vstd::prelude::*;
use crate::text::{chars_of, concat3, find_chars, find_first, lemma_find_from, slice_string, starts_with, starts_with_chars, string_of};
use crate::lm::models::{content_text, messages_view, ChatMessage, MessageView, Usage};
use crate::lm::prompt::{join, join_strings, views};

verus! {

/// The text prompt of a vision request: one line `role: text` per message.
pub open spec fn vision_text(ms: Seq<MessageView>) -> Seq<char> {
    join(ms.map_values(|m: MessageView| m.role + ": "@ + content_text(m.content)), "\n"@)
}

/// The text prompt of a vision request (see `vision_text`).
pub fn vision_prompt(messages: &Vec<ChatMessage>) -> (r: String)
    ensures
        r@ == vision_text(messages_view(messages@)),
{
    let mut lines: Vec<String> = Vec::new();
    let mut i: usize = 0;
    while i < messages.len()
        invariant
            0 <= i <= messages@.len(),
            lines@.len() == i,
            forall|j: int|
                0 <= j < i ==> (#[trigger] lines@[j])@ == messages@[j].role@ + ": "@ + content_text(
                    messages@[j].content@,
                ),
        decreases messages@.len() - i,
    {
        let t = messages[i].content.as_text();
        lines.push(concat3(messages[i].role.as_str(), ": ", t.as_str()));
        i = i + 1;
    }
    assert(views(lines@) =~= messages_view(messages@).map_values(
        |m: MessageView| m.role + ": "@ + content_text(m.content),
    ));
    join_strings(&lines, "\n")
}

/// Where an image comes from.
pub enum ImageSource {
    /// The base64 payload of a `data:` URL.
    Inline(String),
    /// A URL to fetch.
    Remote(String),
}

/// The source of an image URL: the text after the first comma of a `data:`
/// URL (empty when there is none), or the URL itself.
pub open spec fn image_source_of(url: Seq<char>) -> (bool, Seq<char>) {
    if starts_with(url, "data:"@) {
        match find_first(url, ","@) {
            Some(i) => (true, url.skip(i + 1)),
            None => (true, Seq::empty()),
        }
    } else {
        (false, url)
    }
}

/// The source of an image URL (see `image_source_of`).
pub fn image_source(url: &str) -> (r: ImageSource)
    ensures
        match r {
            ImageSource::Inline(p) => image_source_of(url@) == (true, p@),
            ImageSource::Remote(u) => image_source_of(url@) == (false, u@),
        },
{
    proof {
        reveal_strlit(",");
    }
    let s = chars_of(url);
    let prefix = chars_of("data:");
    if starts_with_chars(s.as_slice(), prefix.as_slice()) {
        let comma = chars_of(",");
        match find_chars(s.as_slice(), comma.as_slice(), 0) {
            Some(i) => {
                proof {
                    lemma_find_from(s@, comma@, 0);
                    assert(crate::text::matches_at(s@, comma@, i as int));
                }
                let n = s.len();
                assert(i + 1 <= n);
                let p = slice_string(s.as_slice(), i + 1, s.len());
                assert(s@.subrange(i + 1, s@.len() as int) =~= url@.skip(i + 1));
                ImageSource::Inline(p)
            },
            None => {
                let e: Vec<char> = Vec::new();
                ImageSource::Inline(string_of(e.as_slice()))
            },
        }
    } else {
        ImageSource::Remote(crate::text::owned(url))
    }
}

/// Why a rerank was refused.
pub enum RerankError {
    /// No documents were given.
    NoDocuments,
}

/// A rerank needs documents.
pub fn check_documents(count: usize) -> (r: Result<(), RerankError>)
    ensures
        r is Ok <==> count > 0,
{
    if count == 0 {
        Err(RerankError::NoDocuments)
    } else {
        Ok(())
    }
}

/// The usage a rerank reports: one token per document and one for the query.
pub fn rerank_usage(doc_count: usize) -> (r: Usage)
    requires
        doc_count < usize::MAX,
    ensures
        r.prompt_tokens == doc_count + 1,
        r.completion_tokens == 0,
        r.total_tokens == doc_count + 1,
{
    Usage { prompt_tokens: doc_count + 1, completion_tokens: 0, total_tokens: doc_count + 1 }
}

/// The usage an embedding request reports: one token per input text.
pub fn embedding_usage(text_count: usize) -> (r: Usage)
    ensures
        r.prompt_tokens == text_count,
        r.completion_tokens == 0,
        r.total_tokens == text_count,
{
    Usage { prompt_tokens: text_count, completion_tokens: 0, total_tokens: text_count }
}

/// The first `top_n` results (all when no limit is given).
pub fn keep_top<T>(results: Vec<T>, top_n: Option<usize>) -> (r: Vec<T>)
    ensures
        r@ == match top_n {
            Some(n) => if n < results@.len() {
                results@.take(n as int)
            } else {
                results@
            },
            None => results@,
        },
{
    match top_n {
        Some(n) => {
            let mut v = results;
            v.truncate(n);
            v
        },
        None => results,
    }
}

} // verus!
