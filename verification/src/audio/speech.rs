//! Options of the audio endpoints: formats and their MIME types, the voice
//! and language of synthesis, the streamed WAV chunks, the form fields of
//! voice activity detection and transcription, and the separation answer.

use vstd::prelude::*;
use crate::text::{chars_of, owned, parse_unsigned, parse_unsigned_str, starts_with, starts_with_chars, str_eq};
use crate::codec::{base64_len, data_url, data_url_text};
use crate::lm::models::string_views;
use crate::audio::models::SeparationResponse;
use crate::audio::wav::{sample_bytes, wav_chunk, wav_chunk_bytes, wav_header};

verus! {

/// The voice of a request that names none.
pub fn default_voice() -> (r: String)
    ensures
        r@ == "af_heart"@,
{
    owned("af_heart")
}

/// The format of synthesized speech when none is given.
pub fn default_response_format() -> (r: String)
    ensures
        r@ == "wav"@,
{
    owned("wav")
}

/// The format of a transcription when none is given.
pub fn default_response_format_stt() -> (r: String)
    ensures
        r@ == "json"@,
{
    owned("json")
}

/// The MIME type of an audio format (WAV for any format not listed).
pub open spec fn mime_of(fmt: Seq<char>) -> Seq<char> {
    if fmt == "mp3"@ {
        "audio/mpeg"@
    } else if fmt == "flac"@ {
        "audio/flac"@
    } else if fmt == "ogg"@ {
        "audio/ogg"@
    } else if fmt == "opus"@ {
        "audio/ogg; codecs=opus"@
    } else {
        "audio/wav"@
    }
}

/// The MIME type of an audio format (see `mime_of`).
pub fn mime_for_format(fmt: &str) -> (r: &'static str)
    ensures
        r@ == mime_of(fmt@),
{
    if str_eq(fmt, "mp3") {
        "audio/mpeg"
    } else if str_eq(fmt, "flac") {
        "audio/flac"
    } else if str_eq(fmt, "ogg") {
        "audio/ogg"
    } else if str_eq(fmt, "opus") {
        "audio/ogg; codecs=opus"
    } else {
        "audio/wav"
    }
}

/// The language code a voice implies, from the first two characters of its
/// name: `a` (American English) for `af`/`am`, `b` (British English) for
/// `bf`/`bm`, `j` for `jf`/`jm`, `z` for `zf`/`zm`, and `a` otherwise.
pub open spec fn voice_lang(voice: Seq<char>) -> Seq<char> {
    if starts_with(voice, "af"@) || starts_with(voice, "am"@) {
        "a"@
    } else if starts_with(voice, "bf"@) || starts_with(voice, "bm"@) {
        "b"@
    } else if starts_with(voice, "jf"@) || starts_with(voice, "jm"@) {
        "j"@
    } else if starts_with(voice, "zf"@) || starts_with(voice, "zm"@) {
        "z"@
    } else {
        "a"@
    }
}

/// Whether `voice` starts with `p`.
fn voice_starts(voice: &Vec<char>, p: &str) -> (r: bool)
    ensures
        r == starts_with(voice@, p@),
{
    let q = chars_of(p);
    starts_with_chars(voice.as_slice(), q.as_slice())
}

/// The language code a voice implies (see `voice_lang`).
pub fn lang_code_from_voice(voice: &str) -> (r: &'static str)
    ensures
        r@ == voice_lang(voice@),
{
    let v = chars_of(voice);
    if voice_starts(&v, "af") || voice_starts(&v, "am") {
        "a"
    } else if voice_starts(&v, "bf") || voice_starts(&v, "bm") {
        "b"
    } else if voice_starts(&v, "jf") || voice_starts(&v, "jm") {
        "j"
    } else if voice_starts(&v, "zf") || voice_starts(&v, "zm") {
        "z"
    } else {
        "a"
    }
}

/// The language code of a synthesis: the one given, else the voice's.
pub fn tts_lang_code(language: Option<&str>, voice: &str) -> (r: String)
    ensures
        r@ == match language {
            Some(l) => l@,
            None => voice_lang(voice@),
        },
{
    match language {
        Some(l) => owned(l),
        None => owned(lang_code_from_voice(voice)),
    }
}

/// The voice of a request: its own, or the server's default when it names none.
pub fn choose_voice(requested: &str, default: &str) -> (r: String)
    ensures
        r@ == if requested@.len() == 0 {
            default@
        } else {
            requested@
        },
{
    if requested.is_empty() {
        owned(default)
    } else {
        owned(requested)
    }
}

/// How synthesized audio is encoded.
pub enum AudioEncoding {
    /// 16-bit PCM WAV, written here.
    Wav,
    /// Written by the sound file library, in the format named.
    SoundFile(&'static str),
    /// Not supported.
    Unsupported,
}

/// The encoding of a response format: WAV for `wav` and `wave`, the sound file
/// library for `mp3`, `flac`, `ogg` and `opus` (named in upper case),
/// unsupported otherwise.
pub fn audio_encoding(fmt: &str) -> (r: AudioEncoding)
    ensures
        (fmt@ == "wav"@ || fmt@ == "wave"@) <==> r is Wav,
        fmt@ == "mp3"@ ==> (r matches AudioEncoding::SoundFile(n) && n@ == "MP3"@),
        fmt@ == "flac"@ ==> (r matches AudioEncoding::SoundFile(n) && n@ == "FLAC"@),
        fmt@ == "ogg"@ ==> (r matches AudioEncoding::SoundFile(n) && n@ == "OGG"@),
        fmt@ == "opus"@ ==> (r matches AudioEncoding::SoundFile(n) && n@ == "OPUS"@),
        r is Unsupported <==> !(fmt@ == "wav"@ || fmt@ == "wave"@ || fmt@ == "mp3"@ || fmt@
            == "flac"@ || fmt@ == "ogg"@ || fmt@ == "opus"@),
{
    proof {
        reveal_strlit("wav");
        reveal_strlit("wave");
        reveal_strlit("mp3");
        reveal_strlit("flac");
        reveal_strlit("ogg");
        reveal_strlit("opus");
        assert("mp3"@[0] != "wav"@[0]);
        assert("flac"@[0] != "wave"@[0]);
        assert("ogg"@[0] != "wav"@[0] && "ogg"@[0] != "mp3"@[0] && "ogg"@[0] != "flac"@[0]);
        assert("opus"@[0] != "wave"@[0] && "opus"@[0] != "mp3"@[0] && "opus"@[0] != "flac"@[0]);
        assert("opus"@[1] != "ogg"@[1]);
    }
    if str_eq(fmt, "wav") || str_eq(fmt, "wave") {
        AudioEncoding::Wav
    } else if str_eq(fmt, "mp3") {
        AudioEncoding::SoundFile("MP3")
    } else if str_eq(fmt, "flac") {
        AudioEncoding::SoundFile("FLAC")
    } else if str_eq(fmt, "ogg") {
        AudioEncoding::SoundFile("OGG")
    } else if str_eq(fmt, "opus") {
        AudioEncoding::SoundFile("OPUS")
    } else {
        AudioEncoding::Unsupported
    }
}

// ── Streaming ───────────────────────────────────────────────────────────────

/// The chunks of a streamed synthesis: the first carries the WAV header.
pub struct WavStream {
    pub sample_rate: u32,
    pub first_chunk: bool,
}

impl WavStream {
    /// A stream at `sample_rate` that has sent nothing yet.
    pub fn new(sample_rate: u32) -> (r: Self)
        ensures
            r.sample_rate == sample_rate,
            r.first_chunk,
    {
        WavStream { sample_rate, first_chunk: true }
    }

    /// The bytes of the next chunk of samples.
    pub fn next_chunk(&mut self, samples: &Vec<i16>) -> (r: Vec<u8>)
        requires
            old(self).sample_rate * 2 <= u32::MAX,
        ensures
            r@ == wav_chunk(old(self).sample_rate as nat, samples@, old(self).first_chunk),
            final(self).sample_rate == old(self).sample_rate,
            !final(self).first_chunk,
    {
        let bytes = wav_chunk_bytes(samples, self.sample_rate, self.first_chunk);
        self.first_chunk = false;
        bytes
    }
}

/// The samples' bytes of two runs follow one another.
pub proof fn lemma_sample_bytes_concat(a: Seq<i16>, b: Seq<i16>)
    ensures
        sample_bytes(a + b) == sample_bytes(a) + sample_bytes(b),
    decreases b.len(),
{
    if b.len() == 0 {
        assert(a + b =~= a);
        assert(sample_bytes(a) + sample_bytes(b) =~= sample_bytes(a));
    } else {
        lemma_sample_bytes_concat(a, b.drop_last());
        assert((a + b).drop_last() =~= a + b.drop_last());
        assert((a + b).last() == b.last());
    }
}

/// A stream of two chunks is one header followed by the samples of both, in
/// order: what a client concatenates is a single WAV stream.
pub proof fn lemma_stream_concat(sample_rate: nat, first: Seq<i16>, second: Seq<i16>)
    ensures
        wav_chunk(sample_rate, first, true) + wav_chunk(sample_rate, second, false) == wav_header(
            sample_rate,
            0xffff_ffff,
            0xffff_ffff,
        ) + sample_bytes(first + second),
{
    lemma_sample_bytes_concat(first, second);
    assert(Seq::<u8>::empty() + sample_bytes(second) =~= sample_bytes(second));
    assert(wav_chunk(sample_rate, first, true) + wav_chunk(sample_rate, second, false) =~= wav_header(
        sample_rate,
        0xffff_ffff,
        0xffff_ffff,
    ) + sample_bytes(first + second));
}

// ── Form fields ─────────────────────────────────────────────────────────────

/// The `return_seconds` field: true unless it reads `false` or `0`.
pub fn parse_return_seconds(text: &str) -> (r: bool)
    ensures
        r == (text@ != "false"@ && text@ != "0"@),
{
    !str_eq(text, "false") && !str_eq(text, "0")
}

/// A millisecond field as a number, none when it does not parse.
pub fn parse_ms(text: &str) -> (r: Option<u64>)
    ensures
        r matches Some(v) ==> parse_unsigned(text@, u64::MAX as nat) == Some(v as nat),
        r is None ==> parse_unsigned(text@, u64::MAX as nat) is None,
{
    parse_unsigned_str(text, u64::MAX)
}

/// Whether a transcription reports segments: when its timestamp
/// granularities include `segment`.
pub fn wants_segments(granularities: &Option<Vec<String>>) -> (r: bool)
    ensures
        r == match granularities {
            Some(g) => string_views(g@).contains("segment"@),
            None => false,
        },
{
    match granularities {
        Some(g) => crate::lm::service::list_contains(g, "segment"),
        None => false,
    }
}

/// The description of the sound to separate when none is given.
pub fn default_description() -> (r: String)
    ensures
        r@ == "speech"@,
{
    owned("speech")
}

/// The separation answer: both sources as WAV `data:` URLs.
pub fn separation_response(target: &Vec<u8>, residual: &Vec<u8>) -> (r: SeparationResponse)
    requires
        base64_len(target@.len()) <= usize::MAX,
        base64_len(residual@.len()) <= usize::MAX,
    ensures
        r.target_url matches Some(t) && t@ == data_url_text("audio/wav"@, target@),
        r.residual_url matches Some(u) && u@ == data_url_text("audio/wav"@, residual@),
        r.message@ == "Separation complete"@,
{
    SeparationResponse {
        target_url: Some(data_url("audio/wav", target.as_slice())),
        residual_url: Some(data_url("audio/wav", residual.as_slice())),
        message: owned("Separation complete"),
    }
}

} // verus!
