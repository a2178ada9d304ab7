//! Request shaping, text handling, bookkeeping and state machines of the
//! MLX inference servers (language, audio and image), verified with Verus.
//! The HTTP layer and the Python inference calls live in the application.

pub mod audio;
pub mod codec;
pub mod config;
pub mod hub;
pub mod ids;
pub mod image;
pub mod lm;
pub mod settings;
pub mod text;
