use mlx_local_server::lm::anthropic::{convert_messages, ping_event};
use mlx_local_server::lm::infill::{infill_model_to_load, trim_fill};
use mlx_local_server::lm::models::{
    AnthropicContent, AnthropicMessage, CompletionResponse, ContentBlock, ContentBlockSource, ModelObject,
    MountedAdapterInfo, Usage,
};
use mlx_local_server::lm::pipeline::{apply_template, check_steps, step_max_tokens, step_messages, PipelineRun};
use mlx_local_server::lm::registry::NamedList;
use mlx_local_server::lm::responses::{
    build_conversation, complete_response, response_not_found, to_chat_messages, ResponseInput,
    ResponseInputMessage, StoredResponse,
};
use mlx_local_server::lm::tooling::{
    bench_max_tokens, bench_runs, convert_argv, convert_output_path, default_bench_max_tokens,
    default_bench_prompt, default_bench_runs, fuse_argv, fuse_output_path, fuse_response,
    resolve_adapter_path,
};
use mlx_local_server::lm::vision::{check_documents, embedding_usage, rerank_usage};

fn turn(role: &str, content: &str) -> ResponseInputMessage {
    ResponseInputMessage { role: role.into(), content: content.into() }
}

fn turns(ms: &[ResponseInputMessage]) -> Vec<(String, String)> {
    ms.iter().map(|m| (m.role.clone(), m.content.clone())).collect()
}

fn pair(a: &str, b: &str) -> (String, String) {
    (a.to_string(), b.to_string())
}

#[test]
fn responses_chain_their_conversations() {
    let mut store: NamedList<StoredResponse> = NamedList::new();
    let first = build_conversation(&store, None, Some("Be terse.".into()), ResponseInput::Text("Hi".into()))
        .ok()
        .unwrap();
    assert_eq!(turns(&first), vec![pair("system", "Be terse."), pair("user", "Hi")]);
    let stored = complete_response("resp_1".into(), "msg_1".into(), 5, "m".into(), first, "Hello".into(), 3, 1);
    assert_eq!(stored.usage.total_tokens, 4);
    assert_eq!(stored.output[0].content[0].text, "Hello");
    assert_eq!(stored.status, "completed");
    store.insert("resp_1".into(), stored);
    let second = build_conversation(
        &store,
        Some("resp_1"),
        Some("ignored".into()),
        ResponseInput::Messages(vec![turn("user", "Again")]),
    )
    .ok()
    .unwrap();
    assert_eq!(
        turns(&second),
        vec![pair("system", "Be terse."), pair("user", "Hi"), pair("assistant", "Hello"), pair("user", "Again")]
    );
    let msgs = to_chat_messages(&second);
    assert_eq!(msgs.len(), 4);
    assert_eq!(msgs[2].content.as_text(), "Hello");
    match build_conversation(&store, Some("resp_9"), None, ResponseInput::Text("x".into())) {
        Err(m) => assert_eq!(m, "previous_response_id 'resp_9' not found"),
        Ok(_) => panic!("expected a missing response"),
    }
    assert_eq!(response_not_found("r"), "Response 'r' not found");
}

#[test]
fn pipelines_feed_each_output_to_the_next_step() {
    assert_eq!(apply_template("Summarize: {input}. Again: {input}", "X"), "Summarize: X. Again: X");
    assert!(check_steps(0).is_err() && check_steps(2).is_ok());
    assert_eq!(step_max_tokens(None, Some(100)), 100);
    assert_eq!(step_max_tokens(Some(5), Some(100)), 5);
    assert_eq!(step_max_tokens(None, None), 512);
    let m = step_messages(Some("You are {input}"), None, "a poet");
    assert_eq!(m.len(), 2);
    assert_eq!(m[0].content.as_text(), "You are a poet");
    assert_eq!(m[1].content.as_text(), "a poet");
    let mut run = PipelineRun::start("seed".into());
    run.record_step(Some("one".into()), "out1".into(), 3, 4);
    run.record_step(None, "out2".into(), 5, 6);
    let resp = run.finish("m".into());
    assert_eq!(resp.output, "out2");
    assert_eq!((resp.total_prompt_tokens, resp.total_completion_tokens), (8, 10));
    assert_eq!(resp.steps.len(), 2);
    assert_eq!(resp.steps[0].output, "out1");
}

#[test]
fn anthropic_messages_become_chat_messages() {
    let blocks = vec![
        ContentBlock { kind: "text".into(), text: Some("see ".into()), source: None },
        ContentBlock {
            kind: "image".into(),
            text: None,
            source: Some(ContentBlockSource { kind: "url".into(), url: Some("http://i".into()), data: None, media_type: None }),
        },
        ContentBlock { kind: "text".into(), text: Some("this".into()), source: None },
    ];
    let ms = vec![
        AnthropicMessage { role: "user".into(), content: AnthropicContent::Blocks(blocks) },
        AnthropicMessage { role: "assistant".into(), content: AnthropicContent::Text("ok".into()) },
    ];
    let (chat, images) = convert_messages(&Some("sys".into()), &ms);
    assert_eq!(chat.len(), 3);
    assert_eq!((chat[0].role.as_str(), chat[0].content.as_text()), ("system", "sys".to_string()));
    assert_eq!(chat[1].content.as_text(), "see this");
    assert_eq!(images, vec!["http://i"]);
    assert!(ping_event().starts_with("event: ping"));
}

#[test]
fn infill_is_trimmed_at_each_stop_in_turn() {
    assert_eq!(trim_fill("code();\n<|fim_end|>junk", &Vec::new()), "code();\n");
    assert_eq!(trim_fill("abcSTOPdef<EOT>", &vec!["STOP".to_string()]), "abc");
    assert_eq!(trim_fill("x<EOT>y</s>", &Vec::new()), "x");
    assert!(infill_model_to_load(&None).is_err());
    assert!(infill_model_to_load(&Some(String::new())).is_err());
    assert_eq!(infill_model_to_load(&Some("m".into())).ok(), Some("m".to_string()));
}

#[test]
fn fuse_and_convert_command_lines() {
    let adapters = vec![MountedAdapterInfo { name: "lora".into(), base_model: "b".into(), adapter_path: "./ad".into(), mounted_at: 0 }];
    assert_eq!(resolve_adapter_path(&adapters, "lora"), "./ad");
    assert_eq!(resolve_adapter_path(&adapters, "/path/x"), "/path/x");
    assert_eq!(fuse_output_path(&None, "lora"), "./fused-lora");
    assert_eq!(fuse_output_path(&Some("o".into()), "lora"), "o");
    assert_eq!(
        fuse_argv("base", "./ad", "./out", true, false, &Some("me/repo".into())),
        vec!["fuse", "--model", "base", "--adapter-path", "./ad", "--save-path", "./out", "--de-quantize", "--upload-repo", "me/repo"]
    );
    let r = fuse_response("./out".into(), true, None);
    assert_eq!(r.gguf_path.as_deref(), Some("./out/model.gguf"));
    assert!(fuse_response("./out".into(), false, None).gguf_path.is_none());
    assert_eq!(convert_output_path(&None, "org/My-Model"), "./mlx-My-Model");
    assert_eq!(convert_output_path(&None, "plain"), "./mlx-plain");
    assert_eq!(
        convert_argv("org/m", "./o", Some(4), Some(64), &None, &Some("tok".into())),
        vec!["convert", "--hf-path", "org/m", "--mlx-path", "./o", "-q", "--q-bits", "4", "--q-group-size", "64", "--hf-token", "tok"]
    );
}

#[test]
fn benchmark_settings_are_clamped() {
    assert_eq!(default_bench_prompt(), "Write a short poem about the ocean.");
    assert_eq!((default_bench_runs(), default_bench_max_tokens()), (3, 64));
    assert_eq!((bench_runs(0), bench_runs(7), bench_runs(99)), (1, 7, 20));
    assert_eq!((bench_max_tokens(0), bench_max_tokens(64), bench_max_tokens(4096)), (1, 64, 512));
}

#[test]
fn rerank_and_embedding_bookkeeping() {
    assert!(check_documents(0).is_err());
    assert!(check_documents(1).is_ok());
    let u = rerank_usage(3);
    assert_eq!((u.prompt_tokens, u.completion_tokens, u.total_tokens), (4, 0, 4));
    let e = embedding_usage(2);
    assert_eq!((e.prompt_tokens, e.total_tokens), (2, 2));
}

#[test]
fn listed_models_and_completions_carry_their_creation_time() {
    let m = ModelObject::new_at("mlx-community/x".into(), 42);
    assert_eq!((m.id.as_str(), m.object, m.owned_by.as_str(), m.created), ("mlx-community/x", "model", "mlx-lm-server", 42));
    let usage = Usage { prompt_tokens: 1, completion_tokens: 2, total_tokens: 3 };
    let c = CompletionResponse::new_at("cmpl-1".into(), "m".into(), "hi".into(), usage, 99);
    assert_eq!((c.object, c.created, c.choices.len()), ("text_completion", 99, 1));
    assert_eq!(c.choices[0].text, "hi");
    assert_eq!(c.choices[0].finish_reason.as_deref(), Some("stop"));
}
