use pi_sidebar::shared::context::{pick_newest_snapshot, SnapshotFile};
use pi_sidebar::shared::context::{
    pi_sidebar_snapshots_dir, sanitize_key, snapshot_name_for_pane, snapshot_path_for_pane,
    PluginContext,
};
use pi_sidebar::shared::snapshot::{lock_is_held, lock_owner, pid_lock_path, request_path};

#[test]
fn snapshot_keys_are_sanitized() {
    assert_eq!(sanitize_key("w1M:p22"), "w1M_p22");
    assert_eq!(sanitize_key("a.b-c_d/é"), "a.b-c_d_é");
    assert_eq!(snapshot_name_for_pane("w1M:p22"), "w1M_p22.json");
}

#[test]
fn snapshot_paths_live_under_the_home_directory() {
    assert_eq!(pi_sidebar_snapshots_dir(None), ".pi-sidebar");
    assert_eq!(pi_sidebar_snapshots_dir(Some("/home/u")), "/home/u/.pi/agent/pi-sidebar");
    assert_eq!(snapshot_path_for_pane("/s", "w1:p2"), "/s/w1_p2.json");
}

#[test]
fn request_and_lock_files_sit_next_to_the_snapshot() {
    assert_eq!(request_path("/tmp/x/w1.json"), "/tmp/x/w1.json.request.json");
    assert_eq!(pid_lock_path("/tmp/x/w1.json"), "/tmp/x/w1.json.pid");
}

#[test]
fn lock_files_name_their_owner() {
    assert_eq!(lock_owner(" 4242\n"), Some(4242));
    assert_eq!(lock_owner("x"), None);
    assert!(lock_is_held(Some(7), 8, true));
    assert!(!lock_is_held(Some(8), 8, true));
    assert!(!lock_is_held(Some(7), 8, false));
    assert!(!lock_is_held(None, 8, true));
}

#[test]
fn plugin_context_defaults_the_binary() {
    let c = PluginContext::from_values(None, Some("p1".to_string()), None, None, None, None);
    assert_eq!(c.bin_path, "herdr");
    assert_eq!(c.pane_id.as_deref(), Some("p1"));
    let c2 = PluginContext::from_values(Some("/bin/h".to_string()), None, None, None, None, None);
    assert_eq!(c2.bin_path, "/bin/h");
}

fn snap(name: &str, is_file: bool, mtime: Option<i128>) -> SnapshotFile {
    SnapshotFile { name: name.to_string(), is_file, mtime_ns: mtime }
}

#[test]
fn the_newest_snapshot_is_picked() {
    let files = vec![
        snap("a.json", true, Some(10)),
        snap("b.request.json", true, Some(99)),
        snap(".json", true, Some(98)),
        snap("c.json", false, Some(97)),
        snap("d.txt", true, Some(96)),
        snap("e.json", true, None),
        snap("f.json", true, Some(20)),
        snap("g.json", true, Some(20)),
    ];
    assert_eq!(pick_newest_snapshot(&files), Some(6));
    assert_eq!(pick_newest_snapshot(&files[..6]), Some(0));
    assert_eq!(pick_newest_snapshot(&files[1..6]), None);
}
