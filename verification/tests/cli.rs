use pi_sidebar::cli::{parse_subcommand, parse_tab, snapshot_arg, tab_named, Subcommand, Tab};

fn args(words: &[&str]) -> Vec<String> {
    words.iter().map(|w| w.to_string()).collect()
}

#[test]
fn subcommands_map_onto_entrypoints() {
    assert!(parse_subcommand(&args(&["pi"])) == Subcommand::View);
    assert!(parse_subcommand(&args(&["pi", "usage"])) == Subcommand::Usage);
    assert!(parse_subcommand(&args(&["pi", "renderer", "--snapshot", "x"])) == Subcommand::Renderer);
    assert!(parse_subcommand(&args(&["pi", "notes-popup-action"])) == Subcommand::NotesPopupAction);
    assert!(parse_subcommand(&args(&["pi", "ensure"])) == Subcommand::Ensure);
    assert!(parse_subcommand(&args(&["pi", "whatever"])) == Subcommand::View);
}

#[test]
fn tab_flag_names_a_face() {
    assert!(parse_tab(&args(&["pi", "popup", "--tab", "notes"])) == Some(Tab::Notes));
    assert!(parse_tab(&args(&["pi", "popup", "--tab", "KEYS"])) == Some(Tab::Shortcuts));
    assert!(parse_tab(&args(&["pi", "--tab", "0", "--tab", "mcp"])) == Some(Tab::Zen));
    assert!(parse_tab(&args(&["pi", "--tab"])) == None);
    assert!(parse_tab(&args(&["pi", "--tab", "nope"])) == None);
    assert!(tab_named("2") == Some(Tab::Skills));
    assert!(tab_named("Status") == Some(Tab::Status));
}

#[test]
fn the_last_snapshot_flag_wins() {
    assert_eq!(snapshot_arg(&args(&["pi", "renderer", "--snapshot", "a.json"])), Some("a.json".to_string()));
    assert_eq!(
        snapshot_arg(&args(&["pi", "renderer", "--snapshot", "a", "--snapshot", "b"])),
        Some("b".to_string())
    );
    assert_eq!(snapshot_arg(&args(&["pi", "renderer", "--snapshot"])), None);
    assert_eq!(snapshot_arg(&args(&["pi", "--snapshot", "x"])), None);
    assert_eq!(snapshot_arg(&args(&["pi"])), None);
}
