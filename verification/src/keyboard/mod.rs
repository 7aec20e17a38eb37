//! Keyboard shortcuts: what a key press means in each scope of the window.

pub mod action;
pub mod binding;
pub mod router;

pub use action::{KeyboardAction, KeyboardResult};
pub use binding::{resolve_binding, Key, KeyCombo, KeyboardScope};
