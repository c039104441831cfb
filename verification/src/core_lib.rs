//! The core: presets, prompts, sessions, threads, tools and the course of a generation.

pub mod error;
pub mod generation;
pub mod presets;
pub mod prompts;
pub mod service;
pub mod sessions;
pub mod templates;
pub mod threads;
pub mod tools;
