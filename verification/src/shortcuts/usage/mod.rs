//! Plugin and skill usage statistics derived from pi's own session logs.
pub mod model;
pub mod parse;
pub mod scan;
pub mod state;
