//! A language server that stands between an editor and another language server, and completes code
//! with language models.

pub mod actions;
pub mod adapter;
pub mod apply;
pub mod complete;
pub mod content;
pub mod interceptor;
pub mod jsonrpc;
pub mod lsp;
pub mod params;
pub mod passthrough;
pub mod pending;
pub mod position;
pub mod session;
pub mod snippet;
pub mod symbols;
pub mod tools;
pub mod typedefs;
