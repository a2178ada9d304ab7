//! The Anthropic Messages API on top of the chat model: converting its
//! messages, and the fixed events of its stream.

use vstd::prelude::*;
use crate::text::owned;
use crate::lm::models::{
    anthropic_image_urls, anthropic_text, messages_view, AnthropicMessage, ChatMessage, ContentView,
    MessageContent, MessageView,
};

verus! {

/// The chat messages of a request: the system prompt (when given) as a
/// system message, then each message's text under its role.
pub open spec fn anthropic_chat(system: Option<Seq<char>>, ms: Seq<AnthropicMessage>) -> Seq<
    MessageView,
> {
    let head: Seq<MessageView> = match system {
        Some(s) => seq![MessageView { role: "system"@, content: ContentView::Text(s) }],
        None => Seq::empty(),
    };
    head + ms.map_values(
        |m: AnthropicMessage|
            MessageView { role: m.role@, content: ContentView::Text(anthropic_text(m.content)) },
    )
}

/// The converted conversation keeps every message, in order, under its own
/// role and with its text, after the system prompt (when given) as a system
/// message.
pub proof fn lemma_anthropic_roles(system: Option<Seq<char>>, ms: Seq<AnthropicMessage>)
    ensures
        anthropic_chat(system, ms).len() == ms.len() + (if system is Some { 1int } else { 0int }),
        system matches Some(sp) ==> anthropic_chat(system, ms)[0] == (MessageView {
            role: "system"@,
            content: ContentView::Text(sp),
        }),
        system is None ==> forall|i: int|
            0 <= i < ms.len() ==> (#[trigger] anthropic_chat(system, ms)[i]).role == ms[i].role@
                && anthropic_chat(system, ms)[i].content == ContentView::Text(
                anthropic_text(ms[i].content),
            ),
        system is Some ==> forall|i: int|
            0 <= i < ms.len() ==> (#[trigger] anthropic_chat(system, ms)[i + 1]).role == ms[i].role@
                && anthropic_chat(system, ms)[i + 1].content == ContentView::Text(
                anthropic_text(ms[i].content),
            ),
{
}

/// The image URLs of all messages, in order.
pub open spec fn anthropic_images(ms: Seq<AnthropicMessage>) -> Seq<Seq<char>>
    decreases ms.len(),
{
    if ms.len() == 0 {
        Seq::empty()
    } else {
        anthropic_images(ms.drop_last()) + anthropic_image_urls(ms.last().content)
    }
}

/// The views of a list of strings.
pub open spec fn url_views(v: Seq<String>) -> Seq<Seq<char>> {
    v.map_values(|s: String| s@)
}

/// Converts a request's messages to chat messages, and collects their image
/// URLs (a request with any goes to the vision model).
pub fn convert_messages(system: &Option<String>, messages: &Vec<AnthropicMessage>) -> (r: (
    Vec<ChatMessage>,
    Vec<String>,
))
    ensures
        messages_view(r.0@) == anthropic_chat(
            match system {
                Some(s) => Some(s@),
                None => None,
            },
            messages@,
        ),
        url_views(r.1@) == anthropic_images(messages@),
{
    let mut out: Vec<ChatMessage> = Vec::new();
    let mut urls: Vec<String> = Vec::new();
    if let Some(s) = system {
        out.push(ChatMessage { role: owned("system"), content: MessageContent::Text(s.clone()) });
    }
    let ghost head = messages_view(out@);
    let mut i: usize = 0;
    while i < messages.len()
        invariant
            0 <= i <= messages@.len(),
            messages_view(out@) == head + messages@.take(i as int).map_values(
                |m: AnthropicMessage|
                    MessageView {
                        role: m.role@,
                        content: ContentView::Text(anthropic_text(m.content)),
                    },
            ),
            url_views(urls@) == anthropic_images(messages@.take(i as int)),
        decreases messages@.len() - i,
    {
        let m = &messages[i];
        let found = m.content.image_urls();
        let mut j: usize = 0;
        let ghost u0 = url_views(urls@);
        while j < found.len()
            invariant
                0 <= j <= found@.len(),
                url_views(urls@) == u0 + url_views(found@).take(j as int),
            decreases found@.len() - j,
        {
            let ghost prev = urls@;
            let u = found[j].clone();
            urls.push(u);
            assert(url_views(urls@) =~= url_views(prev).push(u@));
            assert(url_views(found@).take(j + 1) =~= url_views(found@).take(j as int).push(
                found@[j as int]@,
            ));
            j = j + 1;
        }
        assert(url_views(found@).take(j as int) =~= url_views(found@));
        assert(messages@.take(i + 1).drop_last() =~= messages@.take(i as int));
        let ghost before = out@;
        let msg = ChatMessage { role: m.role.clone(), content: MessageContent::Text(m.content.as_text()) };
        out.push(msg);
        assert(messages_view(out@) =~= messages_view(before).push(msg@));
        assert(messages@.take(i + 1).map_values(
            |m: AnthropicMessage|
                MessageView { role: m.role@, content: ContentView::Text(anthropic_text(m.content)) },
        ) =~= messages@.take(i as int).map_values(
            |m: AnthropicMessage|
                MessageView { role: m.role@, content: ContentView::Text(anthropic_text(m.content)) },
        ).push(msg@));
        i = i + 1;
    }
    assert(messages@.take(i as int) =~= messages@);
    proof {
        match system {
            Some(s) => {
                assert(head =~= seq![MessageView { role: "system"@, content: ContentView::Text(s@) }]);
            },
            None => {
                assert(head =~= Seq::<MessageView>::empty());
            },
        }
    }
    (out, urls)
}

/// The stream event that opens the text block.
pub fn content_block_start_event() -> (r: &'static str)
    ensures
        r@ == "event: content_block_start\ndata: {\"type\":\"content_block_start\",\"index\":0,\"content_block\":{\"type\":\"text\",\"text\":\"\"}}\n\n"@,
{
    "event: content_block_start\ndata: {\"type\":\"content_block_start\",\"index\":0,\"content_block\":{\"type\":\"text\",\"text\":\"\"}}\n\n"
}

/// The ping event.
pub fn ping_event() -> (r: &'static str)
    ensures
        r@ == "event: ping\ndata: {\"type\":\"ping\"}\n\n"@,
{
    "event: ping\ndata: {\"type\":\"ping\"}\n\n"
}

} // verus!
