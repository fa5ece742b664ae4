use pi_sidebar::shortcuts::usage::model::UsageStats;
use pi_sidebar::shortcuts::usage::state::UsageOverview;

/// Geometry as the renderer would have left it: 100 rows in a 20-row view.
fn scrolled() -> UsageOverview {
    let mut state = UsageOverview::new();
    state.rows = 100;
    state.view_h = 20;
    state
}

#[test]
fn scroll_is_clamped_to_the_document() {
    let mut state = scrolled();
    state.scroll_by(-5);
    assert_eq!(state.scroll, 0, "cannot scroll above the first row");
    state.scroll_by(10_000);
    assert_eq!(state.scroll, 80, "cannot scroll past rows - view height");
}

#[test]
fn page_moves_by_one_screen_and_clamps() {
    let mut state = scrolled();
    state.page(true);
    assert_eq!(state.scroll, 19, "one screen minus the overlap row");
    state.page(false);
    assert_eq!(state.scroll, 0);
    state.page(false);
    assert_eq!(state.scroll, 0, "clamped at the top");
}

#[test]
fn home_and_end_jump_to_the_bounds() {
    let mut state = scrolled();
    state.scroll_end();
    assert_eq!(state.scroll, 80);
    state.scroll_home();
    assert_eq!(state.scroll, 0);
}

#[test]
fn a_document_that_fits_does_not_scroll() {
    let mut state = UsageOverview::new();
    state.rows = 10;
    state.view_h = 20;
    assert_eq!(state.max_scroll(), 0);
    state.scroll_by(5);
    assert_eq!(state.scroll, 0);
    state.scroll_end();
    assert_eq!(state.scroll, 0);
}

#[test]
fn starts_empty_and_not_scanning() {
    let state = UsageOverview::new();
    assert!(state.stats.is_none());
    assert!(state.status.is_none());
    assert!(!state.is_scanning());
}

#[test]
fn one_scan_at_a_time_and_its_result_is_taken_in() {
    let mut state = UsageOverview::new();
    assert!(state.ensure_scan(true));
    assert_eq!(state.status.as_deref(), Some("Přeskenuji session logy…"));
    assert!(!state.ensure_scan(false), "a scan already runs");
    let mut st = UsageStats::default();
    st.files = 12;
    st.elapsed_ms = 345;
    state.finish_scan(Ok(st));
    assert!(!state.is_scanning());
    assert_eq!(state.status.as_deref(), Some("Proskenováno 12 souborů za 345 ms"));
    assert_eq!(state.stats.as_ref().map(|s| s.files), Some(12));
    assert!(state.ensure_scan(false));
    state.finish_scan(Err("disk".to_string()));
    assert_eq!(state.status.as_deref(), Some("Skenování selhalo: disk"));
    assert_eq!(state.stats.as_ref().map(|s| s.files), Some(12));
}
