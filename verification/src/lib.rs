//! Core logic of an interactive clipboard-history picker.
//!
//! The picker asks a clipboard-history daemon for its entries, marks the one
//! matching the current clipboard contents, lets a menu tool pick an entry,
//! and dispatches one of four actions on the choice.  Everything the program
//! decides or computes lives here: the rolling-hash fingerprint, the visual
//! marker on each listed entry, line splitting and joining for the text fed
//! to and read from the external tools, the exit-status-to-action mapping,
//! and the step-by-step plan of a session.  Spawning the external tools
//! themselves is left to the surrounding binary.

pub mod action;
pub mod config;
pub mod fingerprint;
pub mod session;
pub mod marker;
pub mod text;
