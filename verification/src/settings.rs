//! The settings of the three servers: each is read from the value of its
//! environment variable (none when unset) and falls back to its default. The
//! floating-point settings (temperatures, speeds, timeouts, guidance) are read
//! by the executables.

use vstd::prelude::*;
use crate::config::{
    env_bool, env_list, env_number, env_opt_list, env_opt_str, env_opt_u32, env_str, env_u16,
    env_u32, env_usize,
};
use crate::lm::models::string_views;
use crate::text::{owned, parse_bool, parse_unsigned, split_trimmed};

verus! {

// ── What a value means ──────────────────────────────────────────────────────

/// The text of a value, or `d` when unset.
pub open spec fn text_or(raw: Option<String>, d: Seq<char>) -> Seq<char> {
    match raw {
        Some(v) => v@,
        None => d,
    }
}

/// A value as `true`/`false`, or `d` when unset or not a flag.
pub open spec fn flag_or(raw: Option<String>, d: bool) -> bool {
    match raw {
        Some(v) => match parse_bool(v@) {
            Some(b) => b,
            None => d,
        },
        None => d,
    }
}

/// A value as a number no larger than `max`, or `d` when unset or not one.
pub open spec fn number_or(raw: Option<String>, max: nat, d: nat) -> nat {
    env_number(
        match raw {
            Some(v) => Some(v@),
            None => None,
        },
        max,
        d,
    )
}

/// The comma-separated items of a value, each trimmed, or `d` when unset.
pub open spec fn list_or(raw: Option<String>, d: Seq<Seq<char>>) -> Seq<Seq<char>> {
    match raw {
        Some(v) => split_trimmed(v@, ','),
        None => d,
    }
}

/// The comma-separated items of a value, each trimmed; none when unset.
pub open spec fn opt_list(raw: Option<String>) -> Option<Seq<Seq<char>>> {
    match raw {
        Some(v) => Some(split_trimmed(v@, ',')),
        None => None,
    }
}

/// The views of an optional list.
pub open spec fn opt_list_view(l: Option<Vec<String>>) -> Option<Seq<Seq<char>>> {
    match l {
        Some(v) => Some(string_views(v@)),
        None => None,
    }
}

/// A value as a `u32`; none when unset or not a number.
pub open spec fn opt_u32(raw: Option<String>) -> Option<u32> {
    match raw {
        Some(v) => match parse_unsigned(v@, u32::MAX as nat) {
            Some(n) => Some(n as u32),
            None => None,
        },
        None => None,
    }
}

/// A value's text; none when unset or empty.
pub open spec fn opt_text(raw: Option<String>) -> Option<Seq<char>> {
    match raw {
        Some(v) => if v@.len() > 0 {
            Some(v@)
        } else {
            None
        },
        None => None,
    }
}

/// The view of an optional text.
pub open spec fn opt_view(s: Option<String>) -> Option<Seq<char>> {
    match s {
        Some(v) => Some(v@),
        None => None,
    }
}

fn two(a: &str, b: &str) -> (r: Vec<String>)
    ensures
        string_views(r@) == seq![a@, b@],
{
    let mut r: Vec<String> = Vec::new();
    r.push(owned(a));
    r.push(owned(b));
    assert(string_views(r@) =~= seq![a@, b@]);
    r
}

fn opt_u32_of(raw: Option<String>) -> (r: Option<u32>)
    ensures
        r == opt_u32(raw),
{
    env_opt_u32(raw)
}

fn opt_text_of(raw: Option<String>) -> (r: Option<String>)
    ensures
        opt_view(r) == opt_text(raw),
{
    env_opt_str(raw)
}

fn opt_list_of(raw: Option<String>) -> (r: Option<Vec<String>>)
    ensures
        opt_list_view(r) == opt_list(raw),
{
    env_opt_list(raw)
}

// ── Language-model server ───────────────────────────────────────────────────

/// The values of the language-model server's variables (`MLX_APP_NAME`,
/// `MLX_DEBUG`, `MLX_DEFAULT_MODEL`, `MLX_ALLOWED_MODELS`,
/// `MLX_DEFAULT_MAX_TOKENS`, `MLX_HOST`, `MLX_PORT`, `MLX_CORS_ORIGINS`,
/// `MLX_MAX_CONCURRENT`, `MLX_MOE_TOP_K`, `MLX_WARM_PROMPTS`,
/// `MLX_KEEPALIVE_SECS`, `MLX_ENABLE_APC`, `MLX_APC_MAX_ENTRIES`).
pub struct LmEnv {
    pub app_name: Option<String>,
    pub debug: Option<String>,
    pub default_model: Option<String>,
    pub allowed_models: Option<String>,
    pub default_max_tokens: Option<String>,
    pub host: Option<String>,
    pub port: Option<String>,
    pub cors_origins: Option<String>,
    pub max_concurrent: Option<String>,
    pub moe_top_k: Option<String>,
    pub warm_prompts_file: Option<String>,
    pub keepalive_secs: Option<String>,
    pub enable_apc: Option<String>,
    pub apc_max_entries: Option<String>,
}

/// The language-model server's settings (those that are not floating point).
pub struct LmSettings {
    pub app_name: String,
    pub debug: bool,
    pub default_model: String,
    pub allowed_models: Option<Vec<String>>,
    pub default_max_tokens: usize,
    pub host: String,
    pub port: u16,
    pub cors_origins: Vec<String>,
    pub max_concurrent: usize,
    pub moe_top_k: Option<u32>,
    pub warm_prompts_file: Option<String>,
    pub keepalive_secs: u64,
    pub enable_apc: bool,
    pub apc_max_entries: usize,
}

impl LmSettings {
    /// The settings the values give, with the defaults: name "MLX LM Server",
    /// no debug, model "mlx-community/Mistral-7B-Instruct-v0.3-4bit", any
    /// model allowed, 2048 tokens, host 0.0.0.0, port 8000, the two local
    /// front-end origins, one request at a time, no top-k override, no warm-up
    /// file, a keep-alive every 15 s, the prefix cache on with 32 entries.
    pub fn from_values(env: LmEnv) -> (r: Self)
        ensures
            r.app_name@ == text_or(env.app_name, "MLX LM Server"@),
            r.debug == flag_or(env.debug, false),
            r.default_model@ == text_or(
                env.default_model,
                "mlx-community/Mistral-7B-Instruct-v0.3-4bit"@,
            ),
            opt_list_view(r.allowed_models) == opt_list(env.allowed_models),
            r.default_max_tokens == number_or(env.default_max_tokens, usize::MAX as nat, 2048),
            r.host@ == text_or(env.host, "0.0.0.0"@),
            r.port == number_or(env.port, u16::MAX as nat, 8000),
            string_views(r.cors_origins@) == list_or(
                env.cors_origins,
                seq!["http://localhost:5173"@, "http://localhost:3000"@],
            ),
            r.max_concurrent == number_or(env.max_concurrent, usize::MAX as nat, 1),
            r.moe_top_k == opt_u32(env.moe_top_k),
            opt_view(r.warm_prompts_file) == opt_text(env.warm_prompts_file),
            r.keepalive_secs == number_or(env.keepalive_secs, usize::MAX as nat, 15),
            r.enable_apc == flag_or(env.enable_apc, true),
            r.apc_max_entries == number_or(env.apc_max_entries, usize::MAX as nat, 32),
    {
        let origins = two("http://localhost:5173", "http://localhost:3000");
        LmSettings {
            app_name: env_str(env.app_name, "MLX LM Server"),
            debug: env_bool(env.debug, false),
            default_model: env_str(env.default_model, "mlx-community/Mistral-7B-Instruct-v0.3-4bit"),
            allowed_models: opt_list_of(env.allowed_models),
            default_max_tokens: env_usize(env.default_max_tokens, 2048),
            host: env_str(env.host, "0.0.0.0"),
            port: env_u16(env.port, 8000),
            cors_origins: env_list(env.cors_origins, &origins),
            max_concurrent: env_usize(env.max_concurrent, 1),
            moe_top_k: opt_u32_of(env.moe_top_k),
            warm_prompts_file: opt_text_of(env.warm_prompts_file),
            keepalive_secs: env_usize(env.keepalive_secs, 15) as u64,
            enable_apc: env_bool(env.enable_apc, true),
            apc_max_entries: env_usize(env.apc_max_entries, 32),
        }
    }
}

// ── Audio server ────────────────────────────────────────────────────────────

/// The values of the audio server's variables (`MLX_AUDIO_HOST`,
/// `MLX_AUDIO_PORT`, `MLX_AUDIO_DEBUG`, `MLX_AUDIO_CORS_ORIGINS`,
/// `MLX_AUDIO_MAX_CONCURRENT`, `MLX_AUDIO_TTS_MODEL`, `MLX_AUDIO_STT_MODEL`,
/// `MLX_AUDIO_VAD_MODEL`, `MLX_AUDIO_DEFAULT_VOICE`,
/// `MLX_AUDIO_DEFAULT_LANGUAGE`, `MLX_AUDIO_MAX_TTS_CHARS`).
pub struct AudioEnv {
    pub host: Option<String>,
    pub port: Option<String>,
    pub debug: Option<String>,
    pub cors_origins: Option<String>,
    pub max_concurrent: Option<String>,
    pub tts_model: Option<String>,
    pub stt_model: Option<String>,
    pub vad_model: Option<String>,
    pub voice: Option<String>,
    pub language: Option<String>,
    pub max_tts_chars: Option<String>,
}

/// The audio server's settings (those that are not floating point).
pub struct AudioSettings {
    pub host: String,
    pub port: u16,
    pub debug: bool,
    pub cors_origins: Vec<String>,
    pub max_concurrent: usize,
    pub default_tts_model: String,
    pub default_stt_model: String,
    pub default_vad_model: String,
    pub default_voice: String,
    pub default_language: String,
    pub max_tts_chars: usize,
}

impl AudioSettings {
    /// The settings the values give, with the defaults: host 0.0.0.0, port
    /// 8001, no debug, the two local front-end origins, one request at a time,
    /// Kokoro for speech, Whisper large v3 turbo for transcription, Silero for
    /// voice activity, voice "af_heart", language "en", at most 10000
    /// characters to speak.
    pub fn from_values(env: AudioEnv) -> (r: Self)
        ensures
            r.host@ == text_or(env.host, "0.0.0.0"@),
            r.port == number_or(env.port, u16::MAX as nat, 8001),
            r.debug == flag_or(env.debug, false),
            string_views(r.cors_origins@) == list_or(
                env.cors_origins,
                seq!["http://localhost:3000"@, "http://localhost:5173"@],
            ),
            r.max_concurrent == number_or(env.max_concurrent, usize::MAX as nat, 1),
            r.default_tts_model@ == text_or(env.tts_model, "mlx-community/Kokoro-82M-bf16"@),
            r.default_stt_model@ == text_or(
                env.stt_model,
                "mlx-community/whisper-large-v3-turbo-asr-fp16"@,
            ),
            r.default_vad_model@ == text_or(env.vad_model, "mlx-community/silero-vad"@),
            r.default_voice@ == text_or(env.voice, "af_heart"@),
            r.default_language@ == text_or(env.language, "en"@),
            r.max_tts_chars == number_or(env.max_tts_chars, usize::MAX as nat, 10000),
    {
        let origins = two("http://localhost:3000", "http://localhost:5173");
        AudioSettings {
            host: env_str(env.host, "0.0.0.0"),
            port: env_u16(env.port, 8001),
            debug: env_bool(env.debug, false),
            cors_origins: env_list(env.cors_origins, &origins),
            max_concurrent: env_usize(env.max_concurrent, 1),
            default_tts_model: env_str(env.tts_model, "mlx-community/Kokoro-82M-bf16"),
            default_stt_model: env_str(env.stt_model, "mlx-community/whisper-large-v3-turbo-asr-fp16"),
            default_vad_model: env_str(env.vad_model, "mlx-community/silero-vad"),
            default_voice: env_str(env.voice, "af_heart"),
            default_language: env_str(env.language, "en"),
            max_tts_chars: env_usize(env.max_tts_chars, 10000),
        }
    }
}

// ── Image server ────────────────────────────────────────────────────────────

/// The values of the image server's variables (`MLX_IMAGE_HOST`,
/// `MLX_IMAGE_PORT`, `MLX_IMAGE_DEBUG`, `MLX_IMAGE_CORS_ORIGINS`,
/// `MLX_IMAGE_MAX_CONCURRENT`, `MLX_IMAGE_DEFAULT_MODEL`,
/// `MLX_IMAGE_DEFAULT_STEPS`, `MLX_IMAGE_DEFAULT_WIDTH`,
/// `MLX_IMAGE_DEFAULT_HEIGHT`, `MLX_IMAGE_QUANTIZE`).
pub struct ImageEnv {
    pub host: Option<String>,
    pub port: Option<String>,
    pub debug: Option<String>,
    pub cors_origins: Option<String>,
    pub max_concurrent: Option<String>,
    pub default_model: Option<String>,
    pub default_steps: Option<String>,
    pub default_width: Option<String>,
    pub default_height: Option<String>,
    pub quantize: Option<String>,
}

/// The image server's settings (those that are not floating point).
pub struct ImageSettings {
    pub host: String,
    pub port: u16,
    pub debug: bool,
    pub cors_origins: Vec<String>,
    pub max_concurrent: usize,
    pub default_model: String,
    pub default_steps: u32,
    pub default_width: u32,
    pub default_height: u32,
    pub default_quantize: Option<u32>,
}

impl ImageSettings {
    /// The settings the values give, with the defaults: host 0.0.0.0, port
    /// 8002, no debug, the two local front-end origins, one request at a time,
    /// model "flux2-klein-4b", 4 steps, 1024 by 1024 pixels, no quantization
    /// setting.
    pub fn from_values(env: ImageEnv) -> (r: Self)
        ensures
            r.host@ == text_or(env.host, "0.0.0.0"@),
            r.port == number_or(env.port, u16::MAX as nat, 8002),
            r.debug == flag_or(env.debug, false),
            string_views(r.cors_origins@) == list_or(
                env.cors_origins,
                seq!["http://localhost:3000"@, "http://localhost:5173"@],
            ),
            r.max_concurrent == number_or(env.max_concurrent, usize::MAX as nat, 1),
            r.default_model@ == text_or(env.default_model, "flux2-klein-4b"@),
            r.default_steps == number_or(env.default_steps, u32::MAX as nat, 4),
            r.default_width == number_or(env.default_width, u32::MAX as nat, 1024),
            r.default_height == number_or(env.default_height, u32::MAX as nat, 1024),
            r.default_quantize == opt_u32(env.quantize),
    {
        let origins = two("http://localhost:3000", "http://localhost:5173");
        ImageSettings {
            host: env_str(env.host, "0.0.0.0"),
            port: env_u16(env.port, 8002),
            debug: env_bool(env.debug, false),
            cors_origins: env_list(env.cors_origins, &origins),
            max_concurrent: env_usize(env.max_concurrent, 1),
            default_model: env_str(env.default_model, "flux2-klein-4b"),
            default_steps: env_u32(env.default_steps, 4),
            default_width: env_u32(env.default_width, 1024),
            default_height: env_u32(env.default_height, 1024),
            default_quantize: opt_u32_of(env.quantize),
        }
    }
}

} // verus!
