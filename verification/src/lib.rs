//! Basilisk terminal emulator core: the verified terminal state machine.
pub mod error;
pub mod text;
pub mod term;
pub mod ansi;
pub mod render;
pub mod input;
pub mod mux;
pub mod clipboard;
pub mod bell;
pub mod ssh;
pub mod config;
pub mod metrics;
pub mod cli;

pub use error::{Error, Result};
