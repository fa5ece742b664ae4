use pi_sidebar::telemetry::mcp_live::{badge_for, classify_mcp_tool, configured_servers, parse_mcp_session};
use pi_sidebar::telemetry::openrouter_live::{account_key_var, key_source, provider_id_for, KeySource};
use pi_sidebar::telemetry::spai_live::{read_spai_index, spai_telemetry};

fn servers(names: &[&str]) -> Vec<String> {
    names.iter().map(|s| s.to_string()).collect()
}

#[test]
fn mcp_tools_are_classified_by_server() {
    let known = servers(&["knowledge-base", "context7"]);
    assert_eq!(classify_mcp_tool("mcp", &known), Some(("mcp".to_string(), "gateway".to_string())));
    assert_eq!(
        classify_mcp_tool("mcp__github", &known),
        Some(("github".to_string(), "github".to_string()))
    );
    assert_eq!(
        classify_mcp_tool("context7_resolve", &known),
        Some(("context7".to_string(), "resolve".to_string()))
    );
    assert_eq!(
        classify_mcp_tool("knowledge_base_search", &known),
        Some(("knowledge_base".to_string(), "search".to_string()))
    );
    assert_eq!(classify_mcp_tool("bash", &known), None);
    assert_eq!(classify_mcp_tool("", &known), None);
    assert_eq!(badge_for("context7"), "C7");
    assert_eq!(badge_for("knowledge-base"), "KB");
    assert_eq!(badge_for("other"), "MCP");
}

#[test]
fn mcp_session_counts_calls_errors_and_pending() {
    let log = r#"{"type":"message","timestamp":"2026-01-01T00:00:00.000Z","message":{"role":"assistant","content":[{"type":"toolCall","id":"c1","name":"context7_resolve","arguments":{"query":"rust"}},{"type":"toolCall","id":"c2","name":"context7_docs","arguments":{"path":"/lib"}},{"type":"toolCall","id":"c3","name":"bash"}]}}
{"type":"message","message":{"role":"toolResult","toolCallId":"c1","isError":true}}
{"type":"message","message":{"role":"toolResult","toolCallId":"zz","isError":true}}
"#;
    let t = parse_mcp_session(log, &servers(&["context7"]));
    assert_eq!(t.total_calls, 2);
    assert_eq!(t.total_errors, 1);
    assert_eq!(t.active_calls_count, 1);
    assert!(t.in_flight);
    assert_eq!(t.servers_used, vec!["context7".to_string()]);
    assert_eq!(t.recent_calls.len(), 2);
    assert!(t.recent_calls[0].is_error);
    assert_eq!(t.recent_calls[0].summary, "\"rust\"");
    assert_eq!(t.recent_calls[1].summary, "/lib");
    assert_eq!(t.recent_calls[1].badge, "C7");
    assert_eq!(t.last_call_ts_ms, 1_767_225_600_000);
}

#[test]
fn configured_servers_are_the_keys_of_mcp_servers() {
    let text = r#"{"mcpServers":{"zeta":{},"alpha":{"command":"x"}},"other":1}"#;
    assert_eq!(configured_servers(text), servers(&["alpha", "zeta"]));
    assert!(configured_servers(r#"{"mcpServers":null}"#).is_empty());
    assert!(configured_servers("[]").is_empty());
}

#[test]
fn spai_index_is_read_and_counted() {
    let text = r#"{"version":2,"lastUpdated":"2026-01-01","records":[
        {"id":"1","title":"A","type":"task","status":"done","tags":["x"]},
        {"id":"2","title":"B","type":"idea"},
        {"id":"3","title":"C","status":"Working","priority":"high"}
    ]}"#;
    let ix = read_spai_index(text).unwrap();
    assert_eq!(ix.version, 2);
    assert_eq!(ix.records.len(), 3);
    assert_eq!(ix.records[0].tags, vec!["x".to_string()]);
    assert_eq!(ix.records[2].priority.as_deref(), Some("high"));
    let t = spai_telemetry("/p/.index.json".to_string(), text).unwrap();
    assert_eq!(t.counts.done, 1);
    assert_eq!(t.counts.ideas, 1);
    assert_eq!(t.counts.working, 1);
    assert_eq!(t.counts.total_items, 3);
    assert_eq!(t.file_path.as_deref(), Some("/p/.index.json"));
    assert!(read_spai_index(r#"{"records":[{"id":"1"}]}"#).is_none(), "a record needs a title");
    assert!(read_spai_index(r#"{"version":-1}"#).is_none());
}

#[test]
fn openrouter_accounts_map_to_provider_ids() {
    assert_eq!(provider_id_for("  Work Account "), "openrouter-work-account");
    assert_eq!(provider_id_for("OpenRouter"), "openrouter");
    assert_eq!(provider_id_for("--"), "openrouter");
    assert_eq!(provider_id_for("team.x_1"), "openrouter-team.x_1");
    assert_eq!(account_key_var("work-1"), "OPENROUTER_WORK_1_API_KEY");
}

#[test]
fn api_key_sources_are_classified() {
    assert!(matches!(key_source("   "), KeySource::Missing));
    match key_source(" ${OR_KEY} ") {
        KeySource::Env(v) => assert_eq!(v, "OR_KEY"),
        _ => panic!("expected an env var"),
    }
    match key_source("! pass show or ") {
        KeySource::Command(c) => assert_eq!(c, "pass show or"),
        _ => panic!("expected a command"),
    }
    match key_source("sk-or-1") {
        KeySource::Literal(k) => assert_eq!(k, "sk-or-1"),
        _ => panic!("expected a literal"),
    }
}
