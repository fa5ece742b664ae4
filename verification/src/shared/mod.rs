//! Pieces shared by every face of the sidebar: modal styling helpers, the
//! plugin's context and the pane snapshots it writes.
pub mod client;
pub mod context;
pub mod snapshot;
pub mod theme;
