use pi_sidebar::shortcuts::document::{footer_totals, scanned_label};
use pi_sidebar::shortcuts::usage::model::UsageStats;
use pi_sidebar::shortcuts::usage::state::UsageOverview;
use pi_sidebar::spai_notes::dialog_views::{autocomplete_height, body_scroll, title_offset};
use pi_sidebar::spai_notes::discovery::SpaiProjectSummary;
use pi_sidebar::spai_notes::note::{SpaiFacets, SpaiNoteItem, SpaiStatus, SpaiType};
use pi_sidebar::spai_notes::state::SpaiNotesState;
use pi_sidebar::spai_notes::view::{list_title, note_row, project_title, viewer_title, RowTone};
use pi_sidebar::spai_notes::viewer_content::{format_viewer_content, ViewerTone};

fn note(id: &str, title: &str, status: SpaiStatus, body: &str) -> SpaiNoteItem {
    SpaiNoteItem {
        id: id.to_string(),
        title: title.to_string(),
        kind: SpaiType::Todo,
        status,
        symbol: ".".to_string(),
        timestamp: "2026-05-01 10:00".to_string(),
        tags: vec!["work".to_string(), "pi".to_string()],
        facets: SpaiFacets {
            project: Some("sidebar".to_string()),
            project_path: None,
            priority: None,
            deadline: None,
        },
        body: body.to_string(),
        file_path: format!("/p/docs/spai/{id}.md"),
        file_name: format!("{id}.md"),
    }
}

fn texts(lines: &[pi_sidebar::spai_notes::viewer_content::ViewerLine]) -> Vec<String> {
    lines.iter().map(|l| l.spans.iter().map(|s| s.text.as_str()).collect::<String>()).collect()
}

#[test]
fn the_viewer_shows_header_rule_and_body() {
    let item = note("T-1", "Fix it", SpaiStatus::Working, "# Goal\n## Plan\ntext\r\n- step");
    let lines = format_viewer_content(&item);
    let t = texts(&lines);
    assert_eq!(t[0], "");
    assert_eq!(t[1], "  Stav:     [/] working    Typ: Todo");
    assert_eq!(t[2], "  Vytvořeno: 2026-05-01 10:00");
    assert_eq!(t[3], "  Projekt:  sidebar");
    assert_eq!(t[4], "  Štítky:   work, pi");
    assert_eq!(t[5], "  Soubor:   T-1.md");
    assert!(t[6].starts_with("  ───"));
    assert_eq!(t[7], "");
    assert_eq!(&t[8..], &["  # Goal", "  ## Plan", "  text", "  - step"]);
    assert!(lines[1].spans[1].tone == ViewerTone::Status(SpaiStatus::Working));
    assert!(lines[8].spans[0].tone == ViewerTone::Heading1);
    assert!(lines[9].spans[0].tone == ViewerTone::Heading2);
    assert!(lines[10].spans[0].tone == ViewerTone::Body);
}

#[test]
fn the_title_scrolls_to_keep_the_cursor_in_view() {
    assert_eq!(title_offset("abcdefghij", 3, 5, true), 0);
    assert_eq!(title_offset("abcdefghij", 7, 5, true), 3);
    assert_eq!(title_offset("abcdefghij", 99, 5, true), 6);
    assert_eq!(title_offset("abcdefghij", 7, 5, false), 0);
    assert_eq!(title_offset("abc", 3, 0, true), 3);
}

#[test]
fn the_body_follows_the_cursor_within_the_document() {
    let body = "one\ntwo\nthree\nfour\nfive\nsix";
    assert_eq!(body_scroll(body, 0, 20, 3, true, true, 0), 0);
    assert_eq!(body_scroll(body, body.chars().count(), 20, 3, true, true, 0), 3);
    assert_eq!(body_scroll(body, 0, 20, 3, true, false, 99), 3, "a stale scroll is clamped");
    assert_eq!(body_scroll(body, 0, 20, 3, false, true, 2), 0);
    assert_eq!(autocomplete_height(3), 5);
    assert_eq!(autocomplete_height(40), 8);
}

#[test]
fn the_list_shows_marker_glyph_id_and_title() {
    let item = note("T-1", "Short", SpaiStatus::Done, "");
    let row = note_row(&item, false);
    let t: Vec<&str> = row.iter().map(|s| s.text.as_str()).collect();
    assert_eq!(t, vec!["  ", "[x] ", "T-1      ", "Short"]);
    assert!(row[3].tone == RowTone::TitleDone);
    let sel = note_row(&item, true);
    assert_eq!(sel[0].text, "▶ ");
    assert!(sel[3].tone == RowTone::TitleSelected);
    assert_eq!(list_title("abcdefghijklmnopqrstuvwxyz0123"), "abcdefghijklmnopqrstuvwxy...");
    assert_eq!(list_title("exactly twenty-eight bytes!!"), "exactly twenty-eight bytes!!");
}

#[test]
fn the_switcher_title_marks_the_active_project() {
    let p = SpaiProjectSummary::new("sidebar".to_string(), "/p".to_string(), "/p/docs/spai".to_string());
    let q = SpaiProjectSummary::new("other".to_string(), "/q".to_string(), "/q/docs/spai".to_string());
    let st = SpaiNotesState::new(Some("/p".to_string()), vec![p, q]);
    assert_eq!(project_title(&st), (" Projekt (1/2): sidebar [AKTIVNÍ] ".to_string(), true));
    let none = SpaiNotesState::new(None, Vec::new());
    assert_eq!(project_title(&none), (" Projekt (1/0): — ".to_string(), false));
    assert_eq!(viewer_title(None), " ZEN Prohlížeč ");
    let item = note("T-2", "Idea", SpaiStatus::Todo, "");
    assert_eq!(viewer_title(Some(&item)), " T-2 · Idea ");
}

#[test]
fn rendering_geometry_clamps_a_stale_scroll() {
    let mut state = UsageOverview::new();
    state.scroll = 9999;
    state.fit_view(100, 20);
    assert_eq!(state.scroll, 80, "a stale scroll offset is clamped on render");
    assert_eq!(state.position_label(), "81–100 / 100  ");
    state.scroll_home();
    assert_eq!(state.position_label(), "1–20 / 100  ");
    state.fit_view(5, 20);
    assert_eq!(state.scroll, 0);
    assert_eq!(state.position_label(), "5 řádků  ");
}

#[test]
fn footer_and_title_report_the_totals() {
    assert_eq!(footer_totals(None), "  žádná data");
    let mut stats = UsageStats::default();
    stats.files = 1200;
    stats.messages = 5;
    stats.tool_calls = 7;
    stats.elapsed_ms = 342;
    assert_eq!(footer_totals(Some(&stats)), "  1\u{202f}200 souborů · 5 zpráv · 7 volání · 342 ms");
    assert_eq!(scanned_label(Some(&stats)), " · 1\u{202f}200 souborů");
    assert_eq!(scanned_label(None), "");
}

#[test]
fn project_paths_compare_as_paths() {
    let q = SpaiProjectSummary::new("other".to_string(), "/a/c".to_string(), "/a/c/docs/spai".to_string());
    let p = SpaiProjectSummary::new("b".to_string(), "/a/b".to_string(), "/a/b/docs/spai".to_string());
    let mut st = SpaiNotesState::new(Some("/a/./b/".to_string()), vec![q, p]);
    st.jump_to_active_project();
    assert_eq!(st.selected_project_idx, 1);
    assert_eq!(st.status_message.as_deref(), Some("Přepnuto na: b"));
    assert_eq!(project_title(&st), (" Projekt (2/2): b [AKTIVNÍ] ".to_string(), true));
    let mut away = SpaiNotesState::new(Some("/a/bb".to_string()), st.projects.clone());
    away.jump_to_active_project();
    assert_eq!(away.selected_project_idx, 0);
    assert_eq!(away.status_message.as_deref(), Some("Aktivní projekt nemá docs/spai"));
}
