//! Shortcuts: which Herdr chord runs which plugin action, and the usage
//! statistics of pi's session logs.
pub mod keys;
pub mod model;
pub mod format;
pub mod usage;
pub mod document;
pub mod view;
