//! The language-model server: models, request shaping, reasoning routing,
//! generation post-processing and the server's bookkeeping.

pub mod anthropic;
pub mod api_doc;
pub mod batch;
pub mod chat;
pub mod infill;
pub mod jobs;
pub mod models;
pub mod pipeline;
pub mod prompt;
pub mod reasoning;
pub mod service;
pub mod registry;
pub mod responses;
pub mod stops;
pub mod tooling;
pub mod vectors;
pub mod vision;
