//! The snapshots the pi extension writes for the sidebar pane, the click
//! requests sent back to it, and the lock that keeps one sidebar per pane.
use crate::paths::{file_name, with_file_name};
use crate::text::{chars_of, string_of, trim};
use vstd::prelude::*;

verus! {

/// A clickable tab label of a snapshot line: its id and column span.
pub struct TabHit {
    pub id: String,
    pub start: usize,
    pub end: usize,
}

/// One rendered frame of the sidebar as the pi extension writes it.
pub struct PaneSnapshot {
    pub version: u32,
    pub live: bool,
    pub key: String,
    pub revision: u64,
    pub width: u16,
    pub generated_at: String,
    pub lines: Vec<String>,
    pub tab_hits: Option<Vec<TabHit>>,
}

/// A click on the sidebar, handed to the pi extension.
pub struct ClickRequest {
    pub at: u64,
    pub column: u16,
    pub row: u16,
}

/// The lock file that keeps one sidebar per snapshot.
pub struct PidLock {
    pub path: String,
}

/// The name a file next to the snapshot gets: the snapshot's file name (or
/// `sidebar.json` when it has none) followed by `suffix`.
pub open spec fn sibling_name(file_name: Option<Seq<char>>, suffix: Seq<char>) -> Seq<char> {
    match file_name {
        Some(n) => n + suffix,
        None => "sidebar.json"@ + suffix,
    }
}

fn sibling_path(snapshot_path: &str, suffix: &str) -> (r: String)
    ensures
        r@ == crate::paths::path_with_file_name(
            snapshot_path@,
            sibling_name(crate::paths::path_file_name(snapshot_path@), suffix@),
        ),
{
    let base = match file_name(snapshot_path) {
        Some(n) => n,
        None => crate::text::to_string("sidebar.json"),
    };
    let v = crate::text::concat_chars(chars_of(base.as_str()).as_slice(), chars_of(suffix).as_slice());
    proof {
        reveal_strlit("sidebar.json");
    }
    with_file_name(snapshot_path, string_of(v.as_slice()).as_str())
}

/// Request path for tab clicks: `<snapshot file name>.request.json` next to
/// the snapshot.
pub fn request_path(snapshot_path: &str) -> (r: String)
    ensures
        r@ == crate::paths::path_with_file_name(
            snapshot_path@,
            sibling_name(crate::paths::path_file_name(snapshot_path@), ".request.json"@),
        ),
{
    sibling_path(snapshot_path, ".request.json")
}

/// Lock file path of a snapshot: `<snapshot file name>.pid` next to it.
pub fn pid_lock_path(snapshot_path: &str) -> (r: String)
    ensures
        r@ == crate::paths::path_with_file_name(
            snapshot_path@,
            sibling_name(crate::paths::path_file_name(snapshot_path@), ".pid"@),
        ),
{
    sibling_path(snapshot_path, ".pid")
}

/// The pid a lock file holds: its trimmed text read as a `u32`.
pub fn lock_owner(content: &str) -> (r: Option<u32>)
    ensures
        r == crate::telemetry::git_live::parse_u32(trim(content@)),
{
    let t = crate::text::trim_chars(chars_of(content).as_slice());
    crate::telemetry::git_live::parse_u32_exec(t.as_slice())
}

/// Whether a lock held by `owner` keeps this process (`current_pid`) out:
/// another process's lock that is still running.
pub fn lock_is_held(owner: Option<u32>, current_pid: u32, owner_running: bool) -> (r: bool)
    ensures
        r == (owner matches Some(p) && p != current_pid && owner_running),
{
    match owner {
        Some(p) => p != current_pid && owner_running,
        None => false,
    }
}

} // verus!
