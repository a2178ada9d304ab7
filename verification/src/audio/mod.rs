//! The audio server: speech synthesis, transcription, source separation and
//! voice activity detection around the MLX audio models.

pub mod error;
pub mod models;
pub mod speech;
pub mod wav;
