use pi_sidebar::shortcuts::keys::{config_candidates, ConfigEnv};
use pi_sidebar::shortcuts::format::{format_count, shorten_path, truncate};
use pi_sidebar::shortcuts::keys::{
    action_matches, default_entries, key_config_from, parse_key_config, resolve_prefix,
    same_chord, strip_comment, suggested_entries, KeyConfig, ShortcutEntry, ShortcutSource,
};
use pi_sidebar::shortcuts::model::ShortcutsState;
use pi_sidebar::shortcuts::usage::model::{plugin_of, PluginUsage, UsageStats};
use pi_sidebar::shortcuts::usage::parse::{command_from_text, skill_from_command, skill_from_raw_line};
use pi_sidebar::shortcuts::usage::scan::{rank_plugins, top};

const USER_CONFIG: &str = r#"
onboarding = false
[update]
channel = "preview"

[[keys.command]]
key = "prefix+k"
type = "plugin_action"
command = "spai.ledger.open-popup"
description = "Open SPAI Kanban Board Popup"

[[keys.command]]
key = "prefix+p"   # trailing comment
type = "plugin_action"
command = "pi.herdr-sidebar.popup-win"
description = "Open Pi Sidebar Popup"
"#;

#[test]
fn parses_plugin_action_bindings() {
    let (prefix, entries) = parse_key_config(USER_CONFIG);
    assert_eq!(prefix, None);
    assert_eq!(entries.len(), 2);
    assert_eq!(entries[0].key, "prefix+k");
    assert_eq!(entries[0].kind, "plugin_action");
    assert_eq!(entries[0].command, "spai.ledger.open-popup");
    assert_eq!(entries[1].command, "pi.herdr-sidebar.popup-win");
    assert_eq!(entries[1].source, ShortcutSource::User);
}

#[test]
fn strips_comments_but_not_inside_quotes() {
    assert_eq!(strip_comment("a = 1 # tail").trim(), "a = 1");
    assert_eq!(strip_comment(r#"key = "a#b" # tail"#).trim(), r#"key = "a#b""#);
    assert_eq!(strip_comment("key = 1").trim(), "key = 1");
    assert_eq!(strip_comment(r#"key = "a#b"#), r#"key = "a#b"#);
}

#[test]
fn reads_custom_prefix_and_resolves_chords() {
    let text = "[keys]\nprefix = \"f12\"\n\n[[keys.command]]\nkey = \"prefix+z\"\ncommand = \"plugin.thing\"\n";
    let (prefix, entries) = parse_key_config(text);
    assert_eq!(prefix.as_deref(), Some("f12"));
    assert_eq!(resolve_prefix(&entries[0].key, "f12"), "f12+z");
}

#[test]
fn defaults_are_suffixed_with_the_prefix() {
    let entries = default_entries("ctrl+b");
    assert!(entries.iter().any(|e| e.key == "ctrl+b+c"));
    assert!(entries.iter().all(|e| e.source == ShortcutSource::Default));
}

#[test]
fn user_bindings_shadow_defaults_including_prefix_notation() {
    let (_, user) = parse_key_config(USER_CONFIG);
    let resolved: Vec<ShortcutEntry> = user
        .into_iter()
        .map(|mut e| {
            e.key = resolve_prefix(&e.key, "ctrl+b");
            e
        })
        .collect();
    assert!(resolved.iter().any(|e| e.key == "ctrl+b+p"));

    let user_keys: Vec<String> = resolved.iter().map(|e| e.key.clone()).collect();
    let merged: Vec<ShortcutEntry> = default_entries("ctrl+b")
        .into_iter()
        .filter(|d| !user_keys.iter().any(|k| same_chord(k, &d.key)))
        .collect();
    assert!(
        !merged.iter().any(|e| e.key == "ctrl+b+p"),
        "user binding must shadow the default prefix+p (previous tab)"
    );
    assert!(merged.iter().any(|e| e.key == "ctrl+b+n"), "untouched defaults survive");
    assert!(same_chord("CTRL+B+P", "ctrl+b+p"), "comparison ignores case");
}

#[test]
fn suggests_unbound_plugin_actions_but_never_clobbers_a_default() {
    let (_, user) = parse_key_config(USER_CONFIG);
    let resolved: Vec<ShortcutEntry> = user
        .into_iter()
        .map(|mut e| {
            e.key = resolve_prefix(&e.key, "ctrl+b");
            e
        })
        .collect();

    let suggestions = suggested_entries("ctrl+b", &resolved);
    let keys: Vec<&str> = suggestions.iter().map(|e| e.key.as_str()).collect();

    assert!(keys.contains(&"ctrl+b+u"), "usage overview should be discoverable: {keys:?}");
    assert!(keys.contains(&"ctrl+b+m"), "notes editor should be suggested");
    assert!(
        suggestions.iter().all(|e| e.source == ShortcutSource::Suggested),
        "suggestions must be marked as such, not as user bindings"
    );
    for taken in ["ctrl+b+c", "ctrl+b+p", "ctrl+b+n", "ctrl+b+b", "ctrl+b+r"] {
        assert!(!keys.contains(&taken), "{taken} is a Herdr default and must not be suggested");
    }
}

#[test]
fn an_already_bound_plugin_action_is_not_suggested_again() {
    let bound = vec![ShortcutEntry {
        key: "ctrl+b+u".to_string(),
        kind: "plugin_action".to_string(),
        command: "pi.herdr-sidebar.usage-win".to_string(),
        description: String::new(),
        source: ShortcutSource::User,
    }];
    let suggestions = suggested_entries("ctrl+b", &bound);
    assert!(
        !suggestions.iter().any(|e| e.key == "ctrl+b+u"),
        "a bound action must not be suggested again"
    );
    assert!(action_matches("pi.herdr-sidebar.usage-win", "pi.herdr-sidebar.usage"));
    assert!(!action_matches("", "pi.herdr-sidebar.usage"));
    assert!(!action_matches("pi.herdr-sidebar.toggle", "pi.herdr-sidebar.usage"));
}

fn state_with(count: usize) -> ShortcutsState {
    let mut state = ShortcutsState::new(KeyConfig::default());
    state.entries = (0..count)
        .map(|i| ShortcutEntry {
            key: format!("ctrl+b+{i}"),
            kind: "default".to_string(),
            command: String::new(),
            description: format!("entry {i}"),
            source: ShortcutSource::Default,
        })
        .collect();
    state
}

#[test]
fn selection_clamps_at_both_ends() {
    let mut state = state_with(3);
    state.prev();
    assert_eq!(state.selected, 0);
    state.next();
    state.next();
    state.next();
    assert_eq!(state.selected, 2, "cannot move past the last entry");
}

#[test]
fn manual_scroll_is_clamped() {
    let mut state = state_with(2);
    state.scroll_by(-10);
    assert_eq!(state.scroll, 0, "cannot scroll above the first row");
    state.page_by(true);
    assert_eq!(state.scroll, 8);
    state.page_by(false);
    assert_eq!(state.scroll, 0);
}

#[test]
fn reload_keeps_the_selection_inside_the_list() {
    let mut state = state_with(3);
    state.selected = 2;
    state.reload_keys(key_config_from("", None));
    assert!(state.selected < state.entries.len());
    assert!(state.status.is_some());
}

#[test]
fn groups_thousands() {
    assert_eq!(format_count(0), "0");
    assert_eq!(format_count(999), "999");
    assert_eq!(format_count(1_000), "1\u{202f}000");
    assert_eq!(format_count(70_627), "70\u{202f}627");
    assert_eq!(format_count(1_234_567), "1\u{202f}234\u{202f}567");
}

#[test]
fn truncate_respects_char_boundaries() {
    assert_eq!(truncate("příliš žluťoučký", 5), "příl…");
    assert_eq!(truncate("short", 10), "short");
    assert_eq!(truncate("anything", 0), "");
}

#[test]
fn shorten_path_keeps_the_tail() {
    let long = "C:/Users/jaroslav/AppData/Roaming/herdr/deep/nested/config.toml";
    assert!(long.chars().count() > 52, "fixture must exceed the limit");
    let short = shorten_path(long);
    assert!(short.starts_with('…'));
    assert!(short.ends_with("config.toml"));
    assert!(short.chars().count() <= 52);
    assert_eq!(shorten_path("a/b.toml"), "a/b.toml", "short paths are untouched");
}

#[test]
fn maps_tool_names_to_plugins() {
    assert_eq!(plugin_of("ctx_execute"), "context-mode");
    assert_eq!(plugin_of("knowledge_base_kb_search"), "mcp-knowledge-base");
    assert_eq!(plugin_of("knowledge-base_kb_search"), "mcp-knowledge-base");
    assert_eq!(plugin_of("mcp__knowledge_base"), "mcp-knowledge-base");
    assert_eq!(plugin_of("lens_diagnostics"), "pi-lens");
    assert_eq!(plugin_of("lsp_diagnostics"), "pi-lens");
    assert_eq!(plugin_of("web_search"), "pi-web-access");
    assert_eq!(plugin_of("fetch_content"), "pi-web-access");
    assert_eq!(plugin_of("mcp"), "pi-mcp-adapter");
    assert_eq!(plugin_of("mcpScript"), "pi-mcp-adapter");
    assert_eq!(plugin_of("mcp__lotusscript_lsp"), "mcp-lotusscript-lsp");
    assert_eq!(plugin_of("lotusscript_lsp_lsp_diagnostics"), "mcp-lotusscript-lsp");
    assert_eq!(plugin_of("lotusscript_compile"), "pi-lotusscript-modular");
    assert_eq!(plugin_of("subagent"), "pi-subagents");
    assert_eq!(plugin_of("bg_wait"), "pi-subagents");
    assert_eq!(plugin_of("batch_submit_goal"), "pi-batch");
    assert_eq!(plugin_of("record_spai_item"), "pi-spai");
    assert_eq!(plugin_of("openrouter_list-models"), "mcp-openrouter");
    assert_eq!(plugin_of("mcp__openrouter"), "mcp-openrouter");
    assert_eq!(plugin_of("search_projects"), "pi-projects");
    assert_eq!(plugin_of("bash"), "builtin");
    assert_eq!(plugin_of("read"), "builtin");
    assert_eq!(plugin_of("unknown_thing"), "other");
}

#[test]
fn builtins_are_split_out_of_the_plugin_ranking() {
    let stats = UsageStats {
        tool_calls: 10,
        builtin_calls: 4,
        plugins: vec![
            PluginUsage { plugin: "builtin".into(), calls: 4, tools: vec![] },
            PluginUsage { plugin: "context-mode".into(), calls: 6, tools: vec![] },
        ],
        ..Default::default()
    };
    assert_eq!(stats.plugin_calls(), 6);
    assert_eq!(stats.ranked_plugins().len(), 1);
    assert_eq!(stats.ranked_plugins()[0].plugin, "context-mode");
    assert_eq!(stats.builtin_row().map(|p| p.calls), Some(4));
}

#[test]
fn extracts_skill_from_raw_tool_arguments() {
    let line = r#"{"arguments":{"path":"C:/x/.pi/agent/skills/pi-plugin-dev/SKILL.md"}}"#;
    assert_eq!(skill_from_raw_line(line).as_deref(), Some("pi-plugin-dev"));
    assert_eq!(skill_from_raw_line(r#"{"nope":true}"#), None);
    assert_eq!(skill_from_raw_line(r#"/skills/<name>/SKILL.md"#), None);
}

#[test]
fn picks_the_first_skill_in_the_line() {
    let line = r#"["/skills/aaa/SKILL.md","/skills/bbb/SKILL.md"]"#;
    assert_eq!(skill_from_raw_line(line).as_deref(), Some("aaa"));
}

#[test]
fn recognises_slash_commands_only() {
    assert_eq!(command_from_text("/goal do it").as_deref(), Some("/goal"));
    assert_eq!(command_from_text("/skill:foo").as_deref(), Some("/skill:foo"));
    assert_eq!(command_from_text("  /exit  ").as_deref(), Some("/exit"));
    assert_eq!(command_from_text("not a command"), None);
    assert_eq!(command_from_text("/"), None);
    assert_eq!(command_from_text("a/b"), None);
}

#[test]
fn skill_from_slash_command() {
    assert_eq!(skill_from_command("/skill:foo").as_deref(), Some("foo"));
    assert_eq!(skill_from_command("/goal"), None);
}

#[test]
fn ranks_plugins_by_calls_and_keeps_tool_breakdown() {
    let tools = vec![
        ("ctx_execute".to_string(), 5u64),
        ("ctx_search".to_string(), 2u64),
        ("bash".to_string(), 9u64),
    ];
    let ranked = rank_plugins(&tools);
    assert_eq!(ranked[0].plugin, "builtin");
    assert_eq!(ranked[0].calls, 9);
    assert_eq!(ranked[1].plugin, "context-mode");
    assert_eq!(ranked[1].calls, 7);
    assert_eq!(ranked[1].tools[0], ("ctx_execute".to_string(), 5));
}

#[test]
fn top_sorts_desc_and_truncates() {
    let map = vec![("a".to_string(), 1u64), ("b".to_string(), 5), ("c".to_string(), 3)];
    let listed = top(&map, 2);
    assert_eq!(listed.len(), 2);
    assert_eq!(listed[0].name, "b");
    assert_eq!(listed[1].name, "c");
}

#[test]
fn config_candidates_put_explicit_paths_first() {
    let env = ConfigEnv {
        herdr_config: Some("/etc/h.toml".to_string()),
        herdr_config_path: Some(String::new()),
        appdata: None,
        xdg_config_home: Some("/x".to_string()),
        home: Some("/home/u".to_string()),
    };
    let c = config_candidates(&env);
    assert_eq!(c.len(), 3);
    assert_eq!(c[0], "/etc/h.toml");
    assert!(c[1].ends_with("config.toml") && c[1].starts_with("/x"));
    assert!(c[2].starts_with("/home/u") && c[2].contains(".config"));
}
