//! The terminal: its grid, its modes and the protocols it speaks.
pub mod adapter;
pub mod capture;
pub mod cwd;
pub mod debug_grid;
pub mod input;
pub mod protocol;
pub mod regex;
pub mod screen;
pub mod search;
pub mod snapshot;
