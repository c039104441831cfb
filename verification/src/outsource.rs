//! A backend that forwards generation requests with one key for all providers, and the API of
//! OpenAI.

pub mod backend;
pub mod huggingface;
pub mod openai;
pub mod util;
