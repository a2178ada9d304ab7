//! Errors of the audio server, with their HTTP status, code and message.

use vstd::prelude::*;
use crate::text::{concat2, decimal, decimal_string, owned};

verus! {

/// Why an audio request failed.
pub enum AudioError {
    TtsNotLoaded,
    SttNotLoaded,
    StsNotLoaded,
    LoadFailed(String),
    /// The input's length in bytes, and the most allowed.
    InputTooLong(usize, usize),
    UnsupportedFormat(String),
    AudioProcessing(String),
    Transcription(String),
    Python(String),
    Internal(String),
}

/// The HTTP status of an error: 503 while the model is missing, 400 for the
/// caller's mistakes, 500 otherwise.
pub open spec fn audio_status(e: AudioError) -> u16 {
    match e {
        AudioError::TtsNotLoaded | AudioError::SttNotLoaded | AudioError::StsNotLoaded => 503,
        AudioError::LoadFailed(_) | AudioError::InputTooLong(..) | AudioError::UnsupportedFormat(_) => 400,
        _ => 500,
    }
}

/// The error code of an error.
pub open spec fn audio_code(e: AudioError) -> Seq<char> {
    match e {
        AudioError::TtsNotLoaded | AudioError::SttNotLoaded | AudioError::StsNotLoaded => "model_not_loaded"@,
        AudioError::LoadFailed(_) => "model_load_error"@,
        AudioError::InputTooLong(..) => "input_too_long"@,
        AudioError::UnsupportedFormat(_) => "unsupported_format"@,
        AudioError::AudioProcessing(_) | AudioError::Transcription(_) => "audio_processing_error"@,
        AudioError::Python(_) | AudioError::Internal(_) => "internal_error"@,
    }
}

/// The message of an error.
pub open spec fn audio_message(e: AudioError) -> Seq<char> {
    match e {
        AudioError::TtsNotLoaded => "No TTS model loaded"@,
        AudioError::SttNotLoaded => "No STT model loaded"@,
        AudioError::StsNotLoaded => "No STS model loaded"@,
        AudioError::LoadFailed(s) => "Model load failed: "@ + s@,
        AudioError::InputTooLong(n, m) => "Input too long: "@ + decimal(n as nat) + " chars (max "@
            + decimal(m as nat) + ")"@,
        AudioError::UnsupportedFormat(s) => "Unsupported format: "@ + s@,
        AudioError::AudioProcessing(s) => "Audio processing failed: "@ + s@,
        AudioError::Transcription(s) => "Transcription failed: "@ + s@,
        AudioError::Python(s) => "Python error: "@ + s@,
        AudioError::Internal(s) => "Internal error: "@ + s@,
    }
}

impl AudioError {
    /// The HTTP status (see `audio_status`).
    pub fn status(&self) -> (r: u16)
        ensures
            r == audio_status(*self),
    {
        match self {
            AudioError::TtsNotLoaded | AudioError::SttNotLoaded | AudioError::StsNotLoaded => 503,
            AudioError::LoadFailed(_) | AudioError::InputTooLong(..) | AudioError::UnsupportedFormat(
                _,
            ) => 400,
            _ => 500,
        }
    }

    /// The error code (see `audio_code`).
    pub fn code(&self) -> (r: &'static str)
        ensures
            r@ == audio_code(*self),
    {
        match self {
            AudioError::TtsNotLoaded | AudioError::SttNotLoaded | AudioError::StsNotLoaded => "model_not_loaded",
            AudioError::LoadFailed(_) => "model_load_error",
            AudioError::InputTooLong(..) => "input_too_long",
            AudioError::UnsupportedFormat(_) => "unsupported_format",
            AudioError::AudioProcessing(_) | AudioError::Transcription(_) => "audio_processing_error",
            AudioError::Python(_) | AudioError::Internal(_) => "internal_error",
        }
    }

    /// The message (see `audio_message`).
    pub fn message(&self) -> (r: String)
        ensures
            r@ == audio_message(*self),
    {
        match self {
            AudioError::TtsNotLoaded => owned("No TTS model loaded"),
            AudioError::SttNotLoaded => owned("No STT model loaded"),
            AudioError::StsNotLoaded => owned("No STS model loaded"),
            AudioError::LoadFailed(s) => concat2("Model load failed: ", s.as_str()),
            AudioError::InputTooLong(n, m) => {
                let a = decimal_string(*n as u64);
                let b = decimal_string(*m as u64);
                let head = concat2("Input too long: ", a.as_str());
                let mid = concat2(head.as_str(), " chars (max ");
                let tail = concat2(mid.as_str(), b.as_str());
                concat2(tail.as_str(), ")")
            },
            AudioError::UnsupportedFormat(s) => concat2("Unsupported format: ", s.as_str()),
            AudioError::AudioProcessing(s) => concat2("Audio processing failed: ", s.as_str()),
            AudioError::Transcription(s) => concat2("Transcription failed: ", s.as_str()),
            AudioError::Python(s) => concat2("Python error: ", s.as_str()),
            AudioError::Internal(s) => concat2("Internal error: ", s.as_str()),
        }
    }
}

} // verus!
