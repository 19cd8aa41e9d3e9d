//! Runtime state of a window.
pub mod focus;
pub mod messages;
pub mod vkey;
