use mlx_local_server::lm::infill::{fim_prompt, ExtraContext, FimTokens};
use mlx_local_server::lm::prompt::MAX_WINDOW_TOKENS;
use mlx_local_server::lm::models::{text_message, ChatMessage, ContentPart, ImageUrlRef, MessageContent};
use mlx_local_server::lm::prompt::{
    apply_sliding_window, extract_prefix_messages, fallback_prefix, fallback_prompt, join_strings,
    prepare_messages, tool_call_segments, has_tool_call_delimiters, PreparedMessage,
};
use mlx_local_server::lm::chat::{
    accept_json_attempt, check_token_estimate, choice_count, clean_json_output,
    decode_stream_token, finish_token, image_urls_of, inject_instruction, json_mode_instruction,
    logprob_token, run_seed, thinking_budget, tool_calls_token, usage_of, validates_json,
    ChatError, StreamToken,
};
use mlx_local_server::lm::vision::{image_source, keep_top, vision_prompt, ImageSource};

fn msg(role: &str, text: &str) -> ChatMessage {
    text_message(role, text.to_string())
}

fn roles_and_texts(ms: &[ChatMessage]) -> Vec<(String, String)> {
    ms.iter().map(|m| (m.role.clone(), m.content.as_text())).collect()
}

fn prepared_pairs(ps: &[PreparedMessage]) -> Vec<(String, String)> {
    ps.iter().map(|p| (p.role.clone(), p.content.clone())).collect()
}

fn pair(a: &str, b: &str) -> (String, String) {
    (a.to_string(), b.to_string())
}

#[test]
fn system_messages_lead_the_first_user_turn() {
    let ms = vec![msg("system", "Be brief."), msg("system", "Be kind."), msg("user", "Hi"), msg("assistant", "Hello")];
    let p = prepare_messages(&ms);
    assert_eq!(
        prepared_pairs(&p),
        vec![pair("user", "Be brief.\nBe kind.\n\nHi"), pair("assistant", "Hello")]
    );
}

#[test]
fn system_messages_are_dropped_before_an_assistant_turn() {
    let ms = vec![msg("system", "S"), msg("assistant", "A"), msg("user", "U")];
    let p = prepare_messages(&ms);
    assert_eq!(prepared_pairs(&p), vec![pair("assistant", "A"), pair("user", "U")]);
}

#[test]
fn plain_prompt_without_template() {
    let ms = vec![msg("user", "Hi"), msg("assistant", "Hello"), msg("tool", "42")];
    let p = prepare_messages(&ms);
    assert_eq!(fallback_prompt(&p), "User: Hi\nAssistant: Hello\nAssistant: 42\nAssistant: ");
    assert_eq!(fallback_prefix(&p), "user: Hi\nassistant: Hello\ntool: 42");
    assert_eq!(fallback_prompt(&Vec::new()), "\nAssistant: ");
}

#[test]
fn join_puts_separators_between() {
    let v: Vec<String> = vec!["a".into(), "b".into(), "c".into()];
    assert_eq!(join_strings(&v, ", "), "a, b, c");
    assert_eq!(join_strings(&Vec::new(), ","), "");
}

#[test]
fn stable_prefix_is_everything_before_the_last_user_turn() {
    let ms = vec![msg("system", "S"), msg("user", "u1"), msg("assistant", "a1"), msg("user", "u2")];
    assert_eq!(
        roles_and_texts(&extract_prefix_messages(&ms)),
        vec![pair("system", "S"), pair("user", "u1"), pair("assistant", "a1")]
    );
    assert!(extract_prefix_messages(&vec![msg("user", "only")]).is_empty());
    assert!(extract_prefix_messages(&vec![msg("system", "S")]).is_empty());
}

#[test]
fn sliding_window_keeps_recent_turns_within_budget() {
    let ms = vec![msg("system", "S"), msg("user", "u1"), msg("assistant", "a1"), msg("user", "u2")];
    // everything fits
    let kept = apply_sliding_window(ms.clone(), 100, &vec![50, 10, 10, 10]);
    assert_eq!(kept.len(), 4);
    // only the last two fit in 25 tokens
    let kept = apply_sliding_window(ms.clone(), 25, &vec![50, 10, 10, 10]);
    assert_eq!(
        roles_and_texts(&kept),
        vec![pair("system", "S"), pair("assistant", "a1"), pair("user", "u2")]
    );
    // nothing fits: the newest turn is kept anyway
    let kept = apply_sliding_window(ms, 5, &vec![50, 10, 10, 10]);
    assert_eq!(roles_and_texts(&kept), vec![pair("system", "S"), pair("user", "u2")]);
}

#[test]
fn tool_call_segments_between_delimiters() {
    let text = "x<tool_call>{\"a\":1}</tool_call>y<tool_call>{\"b\":2}</tool_call>";
    assert_eq!(tool_call_segments(text, "<tool_call>", "</tool_call>"), vec!["{\"a\":1}", "{\"b\":2}"]);
    assert_eq!(tool_call_segments("<tool_call>open", "<tool_call>", "</tool_call>"), vec!["open"]);
    assert_eq!(tool_call_segments("[[a]] [[b", "[[", ""), vec!["a]] [[b"]);
    assert!(tool_call_segments("none", "<tool_call>", "</tool_call>").is_empty());
    assert!(has_tool_call_delimiters("<tool_call>x</tool_call>", "<tool_call>", "</tool_call>"));
    assert!(!has_tool_call_delimiters("<tool_call>x", "<tool_call>", "</tool_call>"));
}

#[test]
fn choices_and_streaming() {
    assert!(matches!(choice_count(None, None), Ok(1)));
    assert!(matches!(choice_count(Some(0), None), Ok(1)));
    assert!(matches!(choice_count(Some(40), Some(false)), Ok(16)));
    assert!(matches!(choice_count(Some(2), Some(true)), Err(ChatError::StreamingChoices)));
    assert!(matches!(choice_count(Some(1), Some(true)), Ok(1)));
}

#[test]
fn token_estimate_refuses_long_prompts() {
    let ok = vec![msg("user", &"a".repeat(4 * 4096 + 3))];
    assert!(check_token_estimate(&ok).is_ok());
    let long = vec![msg("user", &"a".repeat(4 * 4097))];
    match check_token_estimate(&long) {
        Err(ChatError::TokenLimit(m)) => assert_eq!(m, "estimated 4097 tokens exceeds maximum 4096"),
        _ => panic!("expected a token limit error"),
    }
}

#[test]
fn json_mode_instruction_goes_into_the_first_system_message() {
    let ins = json_mode_instruction("json_object", "").unwrap();
    assert!(ins.starts_with("You must respond with valid JSON only."));
    let schema = json_mode_instruction("json_schema", "{}").unwrap();
    assert_eq!(schema, "Respond only with valid JSON that matches this schema:\n```json\n{}\n```");
    assert!(json_mode_instruction("text", "").is_none());
    assert!(validates_json("json_object") && validates_json("json_schema") && !validates_json("text"));

    let ms = vec![msg("user", "u"), msg("system", "S")];
    let out = inject_instruction(ms, "J".to_string());
    assert_eq!(roles_and_texts(&out), vec![pair("user", "u"), pair("system", "S\n\nJ")]);
    let out = inject_instruction(vec![msg("user", "u")], "J".to_string());
    assert_eq!(roles_and_texts(&out), vec![pair("system", "J"), pair("user", "u")]);
}

#[test]
fn sampling_settings() {
    assert_eq!(thinking_budget(Some(7), Some("high")), Some(7));
    assert_eq!(thinking_budget(None, Some("low")), Some(512));
    assert_eq!(thinking_budget(None, Some("high")), Some(8192));
    assert_eq!(thinking_budget(None, Some("medium")), Some(2048));
    assert_eq!(thinking_budget(None, None), None);
    assert_eq!(run_seed(Some(5), 2), Some(7));
    assert_eq!(run_seed(Some(u64::MAX), 1), Some(0));
    assert_eq!(run_seed(None, 3), None);
    assert!(!accept_json_attempt(false, 0));
    assert!(!accept_json_attempt(false, 1));
    assert!(accept_json_attempt(false, 2));
    assert!(accept_json_attempt(true, 0));
    let u = usage_of(3, 4);
    assert_eq!((u.prompt_tokens, u.completion_tokens, u.total_tokens), (3, 4, 7));
}

#[test]
fn json_output_is_cleaned() {
    assert_eq!(clean_json_output("```json\n{\"a\": 1}\n```<|im_end|>"), "{\"a\": 1}");
    assert_eq!(clean_json_output("  ```\n[1]``` "), "[1]");
    assert_eq!(clean_json_output("{\"x\":2}</s>"), "{\"x\":2}");
    assert_eq!(clean_json_output("plain"), "plain");
}

#[test]
fn stream_markers_round_trip() {
    match decode_stream_token(finish_token("length")) {
        StreamToken::Finish(r) => assert_eq!(r, "length"),
        _ => panic!("expected a finish marker"),
    }
    match decode_stream_token(logprob_token("{\"logprob\":-1}")) {
        StreamToken::Logprob(j) => assert_eq!(j, "{\"logprob\":-1}"),
        _ => panic!("expected a logprob marker"),
    }
    match decode_stream_token(tool_calls_token("[]")) {
        StreamToken::ToolCalls(j) => assert_eq!(j, "[]"),
        _ => panic!("expected a tool call marker"),
    }
    match decode_stream_token("hello".to_string()) {
        StreamToken::Text(t) => assert_eq!(t, "hello"),
        _ => panic!("expected text"),
    }
    assert_eq!(finish_token("stop"), "\u{0}FINISH:stop\u{0}");
}

#[test]
fn images_of_a_request_and_vision_prompt() {
    let parts = vec![
        ContentPart { kind: "text".into(), text: Some("look".into()), image_url: None },
        ContentPart { kind: "image_url".into(), text: None, image_url: Some(ImageUrlRef { url: "http://x/a.png".into() }) },
    ];
    let ms = vec![ChatMessage { role: "user".into(), content: MessageContent::Parts(parts) }, msg("assistant", "ok")];
    assert_eq!(image_urls_of(&ms), vec!["http://x/a.png"]);
    assert_eq!(vision_prompt(&ms), "user: look\nassistant: ok");
    match image_source("data:image/png;base64,QUJD") {
        ImageSource::Inline(p) => assert_eq!(p, "QUJD"),
        _ => panic!("expected inline data"),
    }
    match image_source("data:nothing") {
        ImageSource::Inline(p) => assert_eq!(p, ""),
        _ => panic!("expected inline data"),
    }
    match image_source("https://x/y.png") {
        ImageSource::Remote(u) => assert_eq!(u, "https://x/y.png"),
        _ => panic!("expected a remote image"),
    }
    assert_eq!(keep_top(vec![3, 2, 1], Some(2)), vec![3, 2]);
    assert_eq!(keep_top(vec![3, 2, 1], Some(9)), vec![3, 2, 1]);
    assert_eq!(keep_top(vec![3, 2, 1], None), vec![3, 2, 1]);
}

#[test]
fn fim_prompt_puts_context_prefix_and_suffix_around_the_tokens() {
    let t = FimTokens { prefix: "<P>".into(), suffix: "<S>".into(), middle: "<M>".into() };
    let extra = vec![ExtraContext { filename: "a.rs".into(), text: "fn a() {}".into() }];
    assert_eq!(fim_prompt(&t, "fn main() {", "}", &extra), "a.rs\nfn a() {}\n<P>fn main() {<S>}<M>");
    assert_eq!(fim_prompt(&t, "x", "y", &vec![]), "<P>x<S>y<M>");
}

#[test]
fn window_budget_is_three_thousand_tokens() {
    assert_eq!(MAX_WINDOW_TOKENS, 3000);
}

#[test]
fn api_reference_names_the_server_and_its_endpoints() {
    let doc = mlx_local_server::lm::api_doc::LLMS_TXT;
    assert!(doc.starts_with("# MLX LM Server\n"));
    assert!(doc.contains("### POST /v1/chat/completions"));
    assert!(doc.contains("### GET /llms.txt"));
}
