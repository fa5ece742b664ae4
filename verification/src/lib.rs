//! Verified core of the Pi Herdr sidebar plugin: SPAI notes, the note editor,
//! Herdr keybinding and usage statistics, and the telemetry parsers.
pub mod actions;
pub mod cli;
pub mod json;
pub mod spai_notes;
pub mod paths;
pub mod shared;
pub mod shortcuts;
pub mod sorting;
pub mod telemetry;
pub mod text;
