//! The logic of a set of programs that generate text with language models: the core that prepares
//! prompts and keeps threads, the backends that talk to providers, and the chat and code
//! completion frontends.

pub mod basic_core;
pub mod chat;
pub mod cli;
pub mod codeassist;
pub mod core_lib;
pub mod json;
pub mod llama;
pub mod llmrs;
pub mod outsource;
pub mod outsource_lib;
pub mod proto;
pub mod protocol;
pub mod text;
