//! A terminal to-do list built around an immediate-mode layout engine.
//!
//! The engine lays widgets out on a character grid from a stack of open
//! layout frames, records every paint request as plain data, and arbitrates
//! a single pending keystroke between an edit widget and the caller.
//! Rendering, input polling and file storage are left to the binary that
//! drives the engine.

pub mod ctrlc;
pub mod items;
pub mod laws;
pub mod ui;
