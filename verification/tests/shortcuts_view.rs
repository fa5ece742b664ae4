use pi_sidebar::shortcuts::keys::{KeyConfig, ShortcutEntry, ShortcutSource};
use pi_sidebar::shortcuts::model::ShortcutsState;
use pi_sidebar::shortcuts::usage::state::{overview_action, OverviewAction, OverviewKey};
use pi_sidebar::shortcuts::view::{detail, entry_row, header_source, header_title, list_scroll, list_title, KeyTone};

fn entry(key: &str, command: &str, source: ShortcutSource) -> ShortcutEntry {
    ShortcutEntry {
        key: key.to_string(),
        kind: "plugin_action".to_string(),
        command: command.to_string(),
        description: "Přepnout sidebar".to_string(),
        source,
    }
}

#[test]
fn the_list_window_follows_the_selection() {
    assert_eq!(list_scroll(0, 0, 5), 0);
    assert_eq!(list_scroll(7, 0, 5), 3);
    assert_eq!(list_scroll(2, 4, 5), 2);
    assert_eq!(list_scroll(6, 4, 5), 4);
    assert_eq!(list_scroll(6, 4, 0), 6);
}

#[test]
fn a_binding_row_has_fixed_columns() {
    let row = entry_row(&entry("ctrl+b+s", "pi_sidebar.toggle", ShortcutSource::User), true);
    let t: Vec<&str> = row.iter().map(|s| s.text.as_str()).collect();
    assert_eq!(t, vec!["▶ ", "ctrl+b+s            ", "config   ", "Přepnout sidebar", "  pi_sidebar.toggle"]);
    assert!(row[1].tone == KeyTone::Chord(true));
    let plain = entry_row(&entry("ctrl+b+v", "", ShortcutSource::Default), false);
    assert_eq!(plain.len(), 4);
    assert_eq!(plain[2].text, "výchozí  ");
}

#[test]
fn header_list_and_detail_describe_the_bindings() {
    let config = KeyConfig {
        prefix: "ctrl+b".to_string(),
        entries: vec![
            entry("ctrl+b+s", "pi_sidebar.toggle", ShortcutSource::User),
            entry("ctrl+b+v", "", ShortcutSource::Default),
        ],
        config_path: None,
    };
    let st = ShortcutsState::new(config);
    assert_eq!(header_title(&st), " ⌨  Zkratky · prefix ctrl+b · 2 vazeb (1 z configu) ");
    assert_eq!(header_source(&st), "config.toml nenalezen");
    assert_eq!(list_title(&st), " Vazby (1/2) ");
    let d = detail(&st.entries[1]);
    assert_eq!(d[1].1, "Přepnout sidebar");
    assert_eq!(d[2].1, "plugin_action   (výchozí Herdr vazba)");
    assert_eq!(d[3].1, "Herdr default");
}

#[test]
fn overview_keys_map_to_actions() {
    assert!(overview_action(OverviewKey::Esc, false) == OverviewAction::Close);
    assert!(overview_action(OverviewKey::Char('q'), false) == OverviewAction::Close);
    assert!(overview_action(OverviewKey::Char('c'), true) == OverviewAction::Close);
    assert!(overview_action(OverviewKey::Char('c'), false) == OverviewAction::Nothing);
    assert!(overview_action(OverviewKey::Char('r'), false) == OverviewAction::Rescan);
    assert!(overview_action(OverviewKey::Char('k'), false) == OverviewAction::ScrollBy(-1));
    assert!(overview_action(OverviewKey::Down, false) == OverviewAction::ScrollBy(1));
    assert!(overview_action(OverviewKey::Char(' '), false) == OverviewAction::Page(true));
    assert!(overview_action(OverviewKey::Char('G'), false) == OverviewAction::End);
    assert!(overview_action(OverviewKey::Left, false) == OverviewAction::Nothing);
}
