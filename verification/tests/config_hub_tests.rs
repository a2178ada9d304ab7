use mlx_local_server::config::{
    env_bool, env_list, env_opt_list, env_opt_str, env_opt_u32, env_str, env_u16, env_u32,
    env_usize, parse_vm_stat_line, available_bytes,
};
use mlx_local_server::settings::{
    AudioEnv, AudioSettings, ImageEnv, ImageSettings, LmEnv, LmSettings,
};
use mlx_local_server::hub::{
    cache_dir_name, default_limit, deleted_label, fill_sizes, hf_model, model_id_from_dir,
    models_needing_size, search_limit, search_params,
};

fn some(s: &str) -> Option<String> {
    Some(s.to_string())
}

#[test]
fn environment_values_fall_back_to_defaults() {
    assert_eq!(env_str(None, "d"), "d");
    assert_eq!(env_str(some("v"), "d"), "v");
    assert!(env_bool(some("true"), false));
    assert!(env_bool(some("yes"), true));
    assert!(!env_bool(None, false));
    assert_eq!(env_usize(some("32"), 1), 32);
    assert_eq!(env_usize(some("-3"), 1), 1);
    assert_eq!(env_u16(some("8080"), 8000), 8080);
    assert_eq!(env_u16(some("70000"), 8000), 8000);
    assert_eq!(env_u32(some("4"), 1), 4);
    assert_eq!(env_opt_u32(some("x")), None);
    assert_eq!(env_opt_u32(some("+9")), Some(9));
    assert_eq!(env_opt_str(some("")), None);
    assert_eq!(env_opt_str(some("f.json")), Some("f.json".to_string()));
    assert_eq!(env_opt_list(some("a, b")), Some(vec!["a".to_string(), "b".to_string()]));
    assert_eq!(env_opt_list(None), None);
    let defaults = vec!["http://localhost:5173".to_string()];
    assert_eq!(env_list(None, &defaults), defaults);
    assert_eq!(env_list(some("x ,y"), &defaults), vec!["x".to_string(), "y".to_string()]);
}

#[test]
fn vm_stat_lines() {
    assert_eq!(parse_vm_stat_line("Pages free:                               12345."), Some(12345));
    assert_eq!(parse_vm_stat_line("Pages inactive: 77"), Some(77));
    assert_eq!(parse_vm_stat_line("Pages free: x."), None);
    assert_eq!(parse_vm_stat_line("   "), None);
    assert_eq!(parse_vm_stat_line("n: 5.. \t"), Some(5));
}

#[test]
fn cache_directories_name_models() {
    assert_eq!(cache_dir_name("mlx-community", "Llama/3B"), "models--mlx-community--Llama--3B");
    assert_eq!(cache_dir_name("org", "model"), "models--org--model");
    assert_eq!(model_id_from_dir("models--org--model"), Some("org/model".to_string()));
    assert_eq!(model_id_from_dir("datasets--x"), None);
    assert_eq!(model_id_from_dir(&cache_dir_name("org", "model")), Some("org/model".to_string()));
    assert_eq!(deleted_label("org", "model"), "org/model");
}

#[test]
fn hub_search_request_and_models() {
    assert_eq!(default_limit(), 20);
    assert_eq!((search_limit(10), search_limit(80)), (10, 50));
    let p = search_params("qwen", 20);
    assert_eq!(p.len(), 6);
    assert_eq!(p[3], ("limit".to_string(), "20".to_string()));
    assert_eq!(p[5], ("search".to_string(), "qwen".to_string()));
    assert_eq!(search_params("", 5).len(), 5);
    let local = vec!["a/b".to_string()];
    let mut models = vec![
        hf_model("a/b".into(), "text-generation".into(), 10, 2, None, &local),
        hf_model("c/d".into(), "".into(), 1, 0, Some(99), &local),
        hf_model("e/f".into(), "".into(), 1, 0, None, &local),
    ];
    assert!(models[0].cached && !models[1].cached);
    assert_eq!(models[0].model_id, "a/b");
    assert_eq!(models_needing_size(&models), vec!["a/b".to_string(), "e/f".to_string()]);
    let sizes = vec![("a/b".to_string(), Some(5)), ("e/f".to_string(), None), ("a/b".to_string(), Some(7))];
    fill_sizes(&mut models, &sizes);
    assert_eq!(models[0].size_bytes, Some(7));
    assert_eq!(models[1].size_bytes, Some(99));
    assert_eq!(models[2].size_bytes, None);
}

#[test]
fn vm_stat_report_counts_available_pages() {
    let report = "Mach Virtual Memory Statistics: (page size of 16384 bytes)\n\
Pages free:                               10.\n\
Pages active:                             99.\n\
Pages inactive:                           20.\n\
Pages speculative:                         3.\n\
Pages purgeable:                           7.\n";
    assert_eq!(available_bytes(report), Some((10 + 20 + 3 + 7) * 16384));
}

#[test]
fn vm_stat_report_defaults_and_overflow() {
    assert_eq!(available_bytes("Pages free: 2.\n"), Some(2 * 4096));
    assert_eq!(available_bytes(""), Some(0));
    assert_eq!(available_bytes("Pages free: bogus\nPages inactive: 1."), Some(4096));
    let huge = format!("Pages free: {}.\nPages inactive: {}.", u64::MAX, u64::MAX);
    assert_eq!(available_bytes(&huge), None);
    assert_eq!(available_bytes("(page size of x7 or 0 bytes)\nPages free: 5."), Some(0));
}

#[test]
fn server_settings_have_their_defaults() {
    let l = LmSettings::from_values(LmEnv {
        app_name: None,
        debug: None,
        default_model: None,
        allowed_models: some("a, b"),
        default_max_tokens: some("oops"),
        host: None,
        port: some("9000"),
        cors_origins: None,
        max_concurrent: None,
        moe_top_k: some("2"),
        warm_prompts_file: some(""),
        keepalive_secs: None,
        enable_apc: some("false"),
        apc_max_entries: None,
    });
    assert_eq!(l.app_name, "MLX LM Server");
    assert_eq!(l.default_model, "mlx-community/Mistral-7B-Instruct-v0.3-4bit");
    assert_eq!(l.allowed_models, Some(vec!["a".to_string(), "b".to_string()]));
    assert_eq!((l.default_max_tokens, l.port, l.max_concurrent), (2048, 9000, 1));
    assert_eq!(l.cors_origins, vec!["http://localhost:5173".to_string(), "http://localhost:3000".to_string()]);
    assert_eq!((l.moe_top_k, l.warm_prompts_file), (Some(2), None));
    assert_eq!((l.keepalive_secs, l.enable_apc, l.apc_max_entries), (15, false, 32));
    let a = AudioSettings::from_values(AudioEnv {
        host: None,
        port: None,
        debug: None,
        cors_origins: some("x"),
        max_concurrent: None,
        tts_model: None,
        stt_model: None,
        vad_model: None,
        voice: None,
        language: None,
        max_tts_chars: None,
    });
    assert_eq!((a.port, a.max_tts_chars), (8001, 10000));
    assert_eq!(a.cors_origins, vec!["x".to_string()]);
    assert_eq!(a.default_tts_model, "mlx-community/Kokoro-82M-bf16");
    assert_eq!(a.default_stt_model, "mlx-community/whisper-large-v3-turbo-asr-fp16");
    assert_eq!((a.default_voice.as_str(), a.default_language.as_str()), ("af_heart", "en"));
    let m = ImageSettings::from_values(ImageEnv {
        host: None,
        port: None,
        debug: some("1"),
        cors_origins: None,
        max_concurrent: None,
        default_model: None,
        default_steps: None,
        default_width: some("512"),
        default_height: None,
        quantize: some("8"),
    });
    assert_eq!(m.port, 8002);
    assert_eq!(m.default_model, "flux2-klein-4b");
    assert_eq!((m.default_steps, m.default_width, m.default_height), (4, 512, 1024));
    assert_eq!(m.default_quantize, Some(8));
}
