//! The clipboard and the primary selection.
pub mod controller;
