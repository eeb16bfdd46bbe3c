//! Media-library organizer core: content fingerprinting, timestamp
//! extraction, duplicate selection, destination resolution and the
//! incremental bookkeeping that lets repeated runs skip settled files.

pub mod cli;
pub mod config;
pub mod error;
pub mod hash;
pub mod i18n;
pub mod interactive;
pub mod process;
pub mod state;
pub mod text;
pub mod time;
pub mod tui;
