//! What keys mean to the application.
pub mod shortcut;
