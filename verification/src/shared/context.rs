//! The plugin's runtime context and where its pane snapshots live.
use crate::paths::join_path;
use crate::text::{char_alphanumeric, chars_of, string_of};
use vstd::prelude::*;

verus! {

/// Injected Herdr environment and runtime context.
pub struct PluginContext {
    pub bin_path: String,
    pub pane_id: Option<String>,
    pub tab_id: Option<String>,
    pub workspace_id: Option<String>,
    pub config_dir: Option<String>,
    pub state_dir: Option<String>,
}

impl PluginContext {
    /// The context from the values of `HERDR_BIN_PATH`, `HERDR_PANE_ID`,
    /// `HERDR_TAB_ID`, `HERDR_WORKSPACE_ID`, `HERDR_PLUGIN_CONFIG_DIR` and
    /// `HERDR_PLUGIN_STATE_DIR`; the binary defaults to `herdr`.
    pub fn from_values(
        bin_path: Option<String>,
        pane_id: Option<String>,
        tab_id: Option<String>,
        workspace_id: Option<String>,
        config_dir: Option<String>,
        state_dir: Option<String>,
    ) -> (r: Self)
        ensures
            r.bin_path@ == match bin_path {
                Some(b) => b@,
                None => "herdr"@,
            },
            r.pane_id == pane_id,
            r.tab_id == tab_id,
            r.workspace_id == workspace_id,
            r.config_dir == config_dir,
            r.state_dir == state_dir,
    {
        let bin = match bin_path {
            Some(b) => b,
            None => crate::text::to_string("herdr"),
        };
        PluginContext { bin_path: bin, pane_id, tab_id, workspace_id, config_dir, state_dir }
    }
}

/// A char kept in a snapshot key: alphanumeric, `.`, `_` or `-`; any other
/// becomes `_`.
pub open spec fn key_char(c: char) -> char {
    if char_alphanumeric(c) || c == '.' || c == '_' || c == '-' {
        c
    } else {
        '_'
    }
}

/// Safe snapshot key derived from a pane id (e.g. `w1M:p22` -> `w1M_p22`).
pub fn sanitize_key(key: &str) -> (r: String)
    ensures
        r@ == key@.map_values(|c: char| key_char(c)),
{
    let cs = chars_of(key);
    let mut out: Vec<char> = Vec::new();
    let mut i: usize = 0;
    while i < cs.len()
        invariant
            0 <= i <= cs@.len(),
            cs@ == key@,
            out@ == cs@.take(i as int).map_values(|c: char| key_char(c)),
        decreases cs.len() - i,
    {
        let c = cs[i];
        out.push(
            if c.is_alphanumeric() || c == '.' || c == '_' || c == '-' {
                c
            } else {
                '_'
            },
        );
        i = i + 1;
        assert(out@ =~= cs@.take(i as int).map_values(|c: char| key_char(c)));
    }
    assert(cs@.take(i as int) =~= cs@);
    string_of(out.as_slice())
}

/// Directory where the sidebar writes its per-session snapshots:
/// `.pi/agent/pi-sidebar` under the home directory, or `.pi-sidebar` in the
/// working directory without one.
pub fn pi_sidebar_snapshots_dir(home: Option<&str>) -> (r: String)
    ensures
        home is None ==> r@ == ".pi-sidebar"@,
{
    match home {
        Some(h) => {
            let a = join_path(h, ".pi");
            let b = join_path(a.as_str(), "agent");
            join_path(b.as_str(), "pi-sidebar")
        },
        None => crate::text::to_string(".pi-sidebar"),
    }
}

/// The snapshot file name for a pane: its sanitized id and `.json`.
pub open spec fn snapshot_file_name(pane_id: Seq<char>) -> Seq<char> {
    pane_id.map_values(|c: char| key_char(c)) + ".json"@
}

/// The snapshot file name of a pane (see [`snapshot_file_name`]).
pub fn snapshot_name_for_pane(pane_id: &str) -> (r: String)
    ensures
        r@ == snapshot_file_name(pane_id@),
{
    let safe = sanitize_key(pane_id);
    let v = crate::text::concat_chars(chars_of(safe.as_str()).as_slice(), chars_of(".json").as_slice());
    string_of(v.as_slice())
}

/// Exact snapshot path for a pane, in the snapshots directory `dir`.
pub fn snapshot_path_for_pane(dir: &str, pane_id: &str) -> (r: String)
    ensures
        r@ == crate::paths::path_joined(dir@, snapshot_file_name(pane_id@)),
{
    let name = snapshot_name_for_pane(pane_id);
    join_path(dir, name.as_str())
}

/// A file of the snapshots directory, as the directory listing gave it.
pub struct SnapshotFile {
    pub name: String,
    pub is_file: bool,
    /// Modification time (ns since the Unix epoch), when the system gave one.
    pub mtime_ns: Option<i128>,
}

/// A pane snapshot's name: a `.json` extension (so more than the bare
/// `.json`), and no click request (`.request.json`).
pub open spec fn is_snapshot_name(name: Seq<char>) -> bool {
    crate::text::ends_with(name, ".json"@) && name.len() > 5 && !crate::text::ends_with(
        name,
        ".request.json"@,
    )
}

/// A file that counts: a snapshot with a modification time.
pub open spec fn counts_as_snapshot(f: SnapshotFile) -> bool {
    f.is_file && is_snapshot_name(f.name@) && f.mtime_ns is Some
}

/// The newest snapshot among the first `n` files; of equal times the
/// first listed wins.
pub open spec fn newest_snapshot(fs: Seq<SnapshotFile>, n: int) -> Option<int>
    decreases n,
{
    if n <= 0 {
        None
    } else {
        let best = newest_snapshot(fs, n - 1);
        if counts_as_snapshot(fs[n - 1]) {
            match best {
                None => Some(n - 1),
                Some(b) => if fs[n - 1].mtime_ns->0 > fs[b].mtime_ns->0 {
                    Some(n - 1)
                } else {
                    Some(b)
                },
            }
        } else {
            best
        }
    }
}

proof fn lemma_newest_snapshot_counts(fs: Seq<SnapshotFile>, n: int)
    requires
        0 <= n <= fs.len(),
    ensures
        newest_snapshot(fs, n) matches Some(b) ==> 0 <= b < n && counts_as_snapshot(fs[b]),
    decreases n,
{
    if n > 0 {
        lemma_newest_snapshot_counts(fs, n - 1);
    }
}

fn is_snapshot_file(f: &SnapshotFile) -> (r: bool)
    ensures
        r == counts_as_snapshot(*f),
{
    let name = chars_of(f.name.as_str());
    proof {
        reveal_strlit(".json");
    }
    f.is_file && f.mtime_ns.is_some() && crate::text::ends_with_chars(
        name.as_slice(),
        chars_of(".json").as_slice(),
    ) && name.len() > 5 && !crate::text::ends_with_chars(
        name.as_slice(),
        chars_of(".request.json").as_slice(),
    )
}

/// Index of the most recently modified snapshot when no pane's own
/// snapshot exists (see [`newest_snapshot`]).
pub fn pick_newest_snapshot(files: &[SnapshotFile]) -> (r: Option<usize>)
    ensures
        match r {
            Some(i) => newest_snapshot(files@, files@.len() as int) == Some(i as int),
            None => newest_snapshot(files@, files@.len() as int) is None,
        },
{
    let mut best: Option<usize> = None;
    let mut i: usize = 0;
    while i < files.len()
        invariant
            0 <= i <= files@.len(),
            newest_snapshot(files@, i as int) == (match best {
                Some(b) => Some(b as int),
                None => None,
            }),
        decreases files.len() - i,
    {
        proof {
            lemma_newest_snapshot_counts(files@, i as int);
        }
        if is_snapshot_file(&files[i]) {
            let t = match files[i].mtime_ns {
                Some(t) => t,
                None => 0,
            };
            match best {
                None => {
                    best = Some(i);
                },
                Some(b) => {
                    let bt = match files[b].mtime_ns {
                        Some(x) => x,
                        None => 0,
                    };
                    if t > bt {
                        best = Some(i);
                    }
                },
            }
        }
        i = i + 1;
    }
    best
}

} // verus!
