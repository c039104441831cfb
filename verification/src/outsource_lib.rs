//! A backend that forwards generation requests to known hosted providers.

pub mod anthropic;
pub mod backend;
pub mod error;
pub mod huggingface;
pub mod ollama;
pub mod stream;
pub mod util;
