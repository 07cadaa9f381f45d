//! The verified core of the leyline terminal emulator.
pub mod app;
pub mod bell;
pub mod cli;
pub mod clipboard;
pub mod config;
pub mod desktop;
pub mod diagnostics;
pub mod frame_composer;
pub mod input;
pub mod interaction;
pub mod keys;
pub mod layout;
pub mod logging;
pub mod memory;
pub mod notification;
pub mod overlay;
pub mod perf;
pub mod presentation;
pub mod run;
pub mod search;
pub mod security;
pub mod selection;
pub mod session;
pub mod session_pump;
pub mod signal;
pub mod sound;
pub mod tab;
pub mod terminal;
pub mod terminfo;
pub mod text;
pub mod time;
pub mod unicode_layout;

pub use run::RunOutcome;
