//! Terminal-interface state machines.
//!
//! Only the state lives here: selections, menus, the text-input buffer
//! and the configuration wizard. Rendering and event plumbing happen
//! outside.

pub mod input;
pub mod labels;
pub mod menu;
pub mod state;
pub mod wizard;
