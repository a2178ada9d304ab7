//! Errors of the image server, with their HTTP status, code and message.

use vstd::prelude::*;
use crate::text::{concat2, concat3, owned};

verus! {

/// Why an image request failed.
pub enum ImageError {
    NotLoaded,
    LoadFailed(String),
    GenerationFailed(String),
    InvalidSize(String),
    UnsupportedModel(String),
    Python(String),
    Internal(String),
}

/// The HTTP status of an error: 503 without a model, 400 for the caller's
/// mistakes, 500 otherwise.
pub open spec fn image_status(e: ImageError) -> u16 {
    match e {
        ImageError::NotLoaded => 503,
        ImageError::LoadFailed(_) | ImageError::InvalidSize(_) | ImageError::UnsupportedModel(_) => 400,
        _ => 500,
    }
}

/// The error code of an error.
pub open spec fn image_code(e: ImageError) -> Seq<char> {
    match e {
        ImageError::NotLoaded => "model_not_loaded"@,
        ImageError::LoadFailed(_) => "model_load_error"@,
        ImageError::InvalidSize(_) | ImageError::UnsupportedModel(_) => "invalid_request"@,
        _ => "generation_error"@,
    }
}

/// The message of an error.
pub open spec fn image_message(e: ImageError) -> Seq<char> {
    match e {
        ImageError::NotLoaded => "No model loaded — POST /v1/models/load first"@,
        ImageError::LoadFailed(s) => "Model load failed: "@ + s@,
        ImageError::GenerationFailed(s) => "Generation failed: "@ + s@,
        ImageError::InvalidSize(s) => "Invalid size: "@ + s@ + ". Use WIDTHxHEIGHT, e.g. 1024x1024"@,
        ImageError::UnsupportedModel(s) => "Unsupported model: "@ + s@ + ". Use flux-schnell or flux-dev"@,
        ImageError::Python(s) => "Python error: "@ + s@,
        ImageError::Internal(s) => "Internal error: "@ + s@,
    }
}

impl ImageError {
    /// The HTTP status (see `image_status`).
    pub fn status(&self) -> (r: u16)
        ensures
            r == image_status(*self),
    {
        match self {
            ImageError::NotLoaded => 503,
            ImageError::LoadFailed(_) | ImageError::InvalidSize(_) | ImageError::UnsupportedModel(
                _,
            ) => 400,
            _ => 500,
        }
    }

    /// The error code (see `image_code`).
    pub fn code(&self) -> (r: &'static str)
        ensures
            r@ == image_code(*self),
    {
        match self {
            ImageError::NotLoaded => "model_not_loaded",
            ImageError::LoadFailed(_) => "model_load_error",
            ImageError::InvalidSize(_) | ImageError::UnsupportedModel(_) => "invalid_request",
            _ => "generation_error",
        }
    }

    /// The message (see `image_message`).
    pub fn message(&self) -> (r: String)
        ensures
            r@ == image_message(*self),
    {
        match self {
            ImageError::NotLoaded => owned("No model loaded — POST /v1/models/load first"),
            ImageError::LoadFailed(s) => concat2("Model load failed: ", s.as_str()),
            ImageError::GenerationFailed(s) => concat2("Generation failed: ", s.as_str()),
            ImageError::InvalidSize(s) => concat3(
                "Invalid size: ",
                s.as_str(),
                ". Use WIDTHxHEIGHT, e.g. 1024x1024",
            ),
            ImageError::UnsupportedModel(s) => concat3(
                "Unsupported model: ",
                s.as_str(),
                ". Use flux-schnell or flux-dev",
            ),
            ImageError::Python(s) => concat2("Python error: ", s.as_str()),
            ImageError::Internal(s) => concat2("Internal error: ", s.as_str()),
        }
    }
}

} // verus!
