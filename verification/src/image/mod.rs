//! The image server: text-to-image generation with FLUX models.

pub mod error;
pub mod generation;
