//! Verified core of the raxis UI toolkit: identifiers, SVG path grammar,
//! effect metadata, tree traversal, paint passes and culling, hooks, input
//! decoding, message routing and window-state decisions.
#![allow(unused_imports)]

pub mod ids;
pub mod svg;
pub mod geometry;
pub mod text;
pub mod effects;
pub mod visit;
pub mod walk;
pub mod input;
pub mod menu;
pub mod dragdrop;
pub mod tray;
pub mod titlebar;
pub mod focus;
pub mod runtime;
pub mod model;
pub mod shell;
pub mod hooks;
pub mod paint;
pub mod cull;
pub mod todo;
