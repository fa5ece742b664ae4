use pi_sidebar::spai_notes::external_editor::{editor_from_env, platform_default_editor};
use pi_sidebar::spai_notes::discovery::{is_note_file, SpaiProjectSummary};
use pi_sidebar::spai_notes::dialog_state::EditField;
use pi_sidebar::spai_notes::external_editor::parse_editor;
use pi_sidebar::spai_notes::state::SpaiNotesState;
use pi_sidebar::spai_notes::input_highlighter::{highlight_spai_input_spans, word_style, WordStyle};
use pi_sidebar::spai_notes::text_cursor::{byte_of, char_len, insert_cursor_marker, line_bounds, move_line};
use pi_sidebar::spai_notes::text_layout::{text_width, wrap_rows};

/// Body-focused dialog with a known buffer.
fn body_editor(body: &str) -> SpaiNotesState {
    let mut state = SpaiNotesState::new(None, Vec::new());
    state.edit_dialog.active = true;
    state.edit_dialog.body_input = body.to_string();
    state.edit_dialog.field = EditField::Body;
    state.edit_dialog.cursor = 0;
    state.edit_dialog.body_follow = true;
    state
}

#[test]
fn edit_dialog_rejects_empty_title() {
    let mut state = SpaiNotesState::new(None, Vec::new());
    state.edit_dialog.title_input = "   ".to_string();
    let err = state.submit_edit_dialog().unwrap_err();
    assert!(err.contains("Název"), "unexpected error: {err}");
}

#[test]
fn typing_inserts_at_cursor_not_at_end() {
    let mut state = body_editor("line one\nline two");
    state.on_edit_char_typed('X');
    assert_eq!(state.edit_dialog.body_input, "Xline one\nline two");
    assert_eq!(state.edit_dialog.cursor, 1);

    state.on_edit_cursor_line_end();
    state.on_edit_cursor_vertical(true);
    state.on_edit_cursor_line_end();
    state.on_edit_char_typed('!');
    assert_eq!(state.edit_dialog.body_input, "Xline one\nline two!");
}

#[test]
fn backspace_and_delete_work_around_the_cursor() {
    let mut state = body_editor("abcdef");
    state.edit_dialog.cursor = 3;
    state.on_edit_backspace();
    assert_eq!(state.edit_dialog.body_input, "abdef");
    assert_eq!(state.edit_dialog.cursor, 2);
    state.on_edit_delete();
    assert_eq!(state.edit_dialog.body_input, "abef");
    assert_eq!(state.edit_dialog.cursor, 2);
}

#[test]
fn line_navigation_keeps_the_column_and_clamps() {
    let mut state = body_editor("short\nmuch longer line");
    state.edit_dialog.cursor = 5;
    state.on_edit_cursor_vertical(true);
    assert_eq!(state.edit_dialog.cursor, 11, "col 5 on the longer line");
    state.on_edit_cursor_vertical(false);
    assert_eq!(state.edit_dialog.cursor, 5, "back up on the short line");

    state.edit_dialog.cursor = 16;
    state.on_edit_cursor_vertical(false);
    assert_eq!(state.edit_dialog.cursor, 5);
}

#[test]
fn home_end_are_line_scoped_and_enter_inserts_newline() {
    let mut state = body_editor("alpha\nbeta");
    state.edit_dialog.cursor = 9;
    state.on_edit_cursor_line_start();
    assert_eq!(state.edit_dialog.cursor, 6);
    state.on_edit_enter();
    assert_eq!(state.edit_dialog.body_input, "alpha\n\nbeta");
    assert_eq!(state.edit_dialog.cursor, 7, "cursor advances past the new line")
}

#[test]
fn manual_scroll_pauses_follow_and_editing_restores_it() {
    let mut state = body_editor("a\nb");
    assert!(state.edit_dialog.body_follow);
    state.scroll_edit_body(true, 5);
    assert!(!state.edit_dialog.body_follow, "PgDn pauses auto-follow");
    assert_eq!(state.edit_dialog.body_scroll, 5);
    state.on_edit_char_typed('z');
    assert!(state.edit_dialog.body_follow, "typing resumes auto-follow");
}

#[test]
fn toggle_field_parks_cursor_at_end_of_new_field() {
    let mut state = body_editor("body text");
    state.edit_dialog.title_input = "My title".to_string();
    state.toggle_edit_field();
    assert_eq!(state.edit_dialog.field, EditField::Title);
    assert_eq!(state.edit_dialog.cursor, 8);
    state.toggle_edit_field();
    assert_eq!(state.edit_dialog.field, EditField::Body);
    assert_eq!(state.edit_dialog.cursor, 9);
}

#[test]
fn multibyte_titles_are_edited_by_char_index() {
    let mut state = body_editor("");
    state.edit_dialog.field = EditField::Title;
    state.edit_dialog.title_input = "příliš".to_string();
    state.edit_dialog.cursor = 0;
    state.on_edit_char_typed('X');
    assert_eq!(state.edit_dialog.title_input, "Xpříliš");

    state.on_edit_cursor_right();
    state.on_edit_cursor_right();
    state.on_edit_backspace();
    assert_eq!(state.edit_dialog.title_input, "Xpíliš");
    assert_eq!(state.edit_dialog.cursor, 2);
}

#[test]
fn byte_offsets_are_char_based() {
    let s = "příliš";
    assert_eq!(char_len(s), 6);
    assert_eq!(byte_of(s, 0), 0);
    assert_eq!(byte_of(s, 1), 1);
    assert_eq!(byte_of(s, 2), 3, "ř is two bytes");
    assert_eq!(byte_of(s, 99), s.len(), "clamped to the end");
}

#[test]
fn line_bounds_cover_the_cursor_line() {
    let s = "alpha\nbeta\ngamma";
    assert_eq!(line_bounds(s, 0), (0, 5));
    assert_eq!(line_bounds(s, 5), (0, 5), "cursor on the newline stays on its line");
    assert_eq!(line_bounds(s, 6), (6, 10));
    assert_eq!(line_bounds(s, 16), (11, 16));
}

#[test]
fn move_line_keeps_column_and_clamps_to_shorter_lines() {
    let s = "short\nmuch longer line";
    assert_eq!(move_line(s, 5, true), 11, "col 5 on the next line");
    assert_eq!(move_line(s, 11, false), 5, "back up");
    assert_eq!(move_line(s, 16, false), 5, "clamped to the short line end");
    assert_eq!(move_line(s, 0, false), 0, "top line cannot move up");
    assert_eq!(move_line(s, 16, true), 16, "bottom line cannot move down");
}

#[test]
fn short_text_is_a_single_row() {
    assert_eq!(wrap_rows("hello", 20), vec!["hello"]);
    assert_eq!(wrap_rows("", 20), vec![""]);
}

#[test]
fn newlines_create_hard_rows() {
    assert_eq!(wrap_rows("a\nbb\nccc", 10), vec!["a", "bb", "ccc"]);
}

#[test]
fn words_wrap_without_being_split() {
    let rows = wrap_rows("alpha beta gamma", 11);
    assert_eq!(rows, vec!["alpha beta ", "gamma"]);
    for row in &rows {
        assert!(text_width(row) <= 11, "row too wide: {row:?}");
    }
}

#[test]
fn over_long_words_are_hard_broken() {
    let rows = wrap_rows("https://example.com/very/long/path", 10);
    assert!(rows.len() > 1, "must break: {rows:?}");
    for row in &rows {
        assert!(text_width(row) <= 10, "row too wide: {row:?}");
    }
}

#[test]
fn no_characters_are_lost() {
    let text = "první řádek s diakritikou\nhttps://a.b/c?d=e&f=g druhý ✓ řádek";
    let rows = wrap_rows(text, 9);
    assert_eq!(rows.concat(), text.replace('\n', ""));
}

#[test]
fn wide_chars_count_as_two_cells() {
    assert_eq!(text_width("日本"), 4);
    assert!(wrap_rows("日本語", 4).len() >= 2);
}

#[test]
fn wide_runs_of_spaces_are_cut_to_the_width() {
    let rows = wrap_rows("ab   c", 2);
    assert_eq!(rows, vec!["ab", "  ", " c"]);
    for row in &rows {
        assert!(text_width(row) <= 2, "row too wide: {row:?}");
    }
    let rows = wrap_rows("a      b", 3);
    assert_eq!(rows.concat(), "a      b");
    for row in &rows {
        assert!(text_width(row) <= 3, "row too wide: {row:?}");
    }
}

#[test]
fn a_wide_char_alone_overflows_width_one() {
    assert_eq!(wrap_rows("日", 1), vec!["日"]);
    assert_eq!(wrap_rows("日本", 0), vec!["日", "本"]);
}

#[test]
fn text_width_adds_up_over_concatenation() {
    let (a, b) = ("日本", "abc");
    assert_eq!(text_width(&format!("{a}{b}")), text_width(a) + text_width(b));
    assert_eq!(text_width("abc"), 3);
    assert_eq!(text_width(""), 0);
    let s = "ž日✓a";
    let n = s.chars().count();
    assert!(n <= text_width(s) && text_width(s) <= 2 * n);
}

#[test]
fn width_one_never_panics() {
    let rows = wrap_rows("abc def", 1);
    assert_eq!(rows.concat(), "abc def");
}

#[test]
fn parses_plain_program() {
    let cmd = parse_editor("vim").unwrap();
    assert_eq!(cmd.program, "vim");
    assert!(cmd.args.is_empty());
}

#[test]
fn parses_program_with_args() {
    let cmd = parse_editor("code --wait").unwrap();
    assert_eq!(cmd.program, "code");
    assert_eq!(cmd.args, vec!["--wait"]);
}

#[test]
fn parses_quoted_path() {
    let cmd = parse_editor("\"C:/Program Files/Editor/ed.exe\" --new-window").unwrap();
    assert_eq!(cmd.program, "C:/Program Files/Editor/ed.exe");
    assert_eq!(cmd.args, vec!["--new-window"]);
}

#[test]
fn empty_editor_is_rejected() {
    assert!(parse_editor("").is_none());
    assert!(parse_editor("   ").is_none());
}

#[test]
fn cursor_marker_goes_before_the_char() {
    assert_eq!(insert_cursor_marker("žluť", 1), "ž█luť");
    assert_eq!(insert_cursor_marker("ab", 0), "█ab");
    assert_eq!(insert_cursor_marker("ab", 2), "ab█");
    assert_eq!(insert_cursor_marker("ab", 9), "ab█");
    assert_eq!(insert_cursor_marker("", 0), "█");
}

#[test]
fn input_is_coloured_word_by_word() {
    let pieces: Vec<(String, WordStyle)> = highlight_spai_input_spans("x  fix :work: @pi !! #a plain")
        .into_iter()
        .map(|w| (w.text, w.style))
        .collect();
    let expect = [
        ("x ", WordStyle::Prefix),
        (" ", WordStyle::Gap),
        ("fix", WordStyle::Plain),
        (" ", WordStyle::Gap),
        (":work:", WordStyle::Tag),
        (" ", WordStyle::Gap),
        ("@pi", WordStyle::Facet),
        (" ", WordStyle::Gap),
        ("!!", WordStyle::Priority),
        (" ", WordStyle::Gap),
        ("#a", WordStyle::Hash),
        (" ", WordStyle::Gap),
        ("plain", WordStyle::Plain),
    ];
    assert_eq!(pieces.len(), expect.len());
    for (got, want) in pieces.iter().zip(expect.iter()) {
        assert_eq!(got.0, want.0);
        assert!(got.1 == want.1, "style of {}", want.0);
    }
    assert!(highlight_spai_input_spans("").is_empty());
    let tabbed: Vec<String> = highlight_spai_input_spans("a\tb").into_iter().map(|w| w.text).collect();
    assert_eq!(tabbed, vec!["a", " ", "b"]);
}

#[test]
fn lone_markers_stay_plain() {
    assert!(word_style(&['@']) == WordStyle::Plain);
    assert!(word_style(&[':', ':']) == WordStyle::Plain);
    assert!(word_style(&['!', '!', '!', '!']) == WordStyle::Plain);
    assert!(word_style(&['#']) == WordStyle::Hash);
}

fn note_at(id: &str, timestamp: &str) -> pi_sidebar::spai_notes::note::SpaiNoteItem {
    pi_sidebar::spai_notes::note::SpaiNoteItem {
        id: id.to_string(),
        title: id.to_string(),
        kind: pi_sidebar::spai_notes::note::SpaiType::Todo,
        status: pi_sidebar::spai_notes::note::SpaiStatus::Todo,
        symbol: ".".to_string(),
        timestamp: timestamp.to_string(),
        tags: Vec::new(),
        facets: pi_sidebar::spai_notes::note::SpaiFacets {
            project: None,
            project_path: None,
            priority: None,
            deadline: None,
        },
        body: String::new(),
        file_path: format!("/p/{id}.md"),
        file_name: format!("{id}.md"),
    }
}

#[test]
fn project_notes_are_listed_newest_first() {
    let mut project = SpaiProjectSummary::new("p".to_string(), "/p".to_string(), "/p/docs/spai".to_string());
    project.set_items(vec![
        note_at("a", "2026-01-01"),
        note_at("b", "2026-03-01"),
        note_at("c", "2026-01-01"),
        note_at("d", "2026-02-01"),
    ]);
    let ids: Vec<&str> = project.items.iter().map(|n| n.id.as_str()).collect();
    assert_eq!(ids, vec!["b", "d", "a", "c"]);
    assert!(is_note_file("x.md"));
    assert!(!is_note_file(".x.md"));
    assert!(!is_note_file("x.txt"));
}

#[test]
fn editor_comes_from_visual_then_editor() {
    let c = editor_from_env(Some("  code --wait "), Some("vim")).unwrap();
    assert_eq!(c.program, "code");
    assert_eq!(c.args, vec!["--wait"]);
    assert_eq!(editor_from_env(Some("   "), Some("vim")).unwrap().program, "vim");
    assert!(editor_from_env(None, None).is_none());
    assert_eq!(platform_default_editor(true, false, false, false).unwrap().program, "notepad");
    assert_eq!(platform_default_editor(false, false, true, true).unwrap().program, "vim");
    assert!(platform_default_editor(false, false, false, false).is_none());
}
