//! A core that numbers its threads.

pub mod error;
pub mod generation;
pub mod threads;
pub mod util;
