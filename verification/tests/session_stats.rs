use pi_sidebar::telemetry::model_catalog::{cache_write_split, select_tier};
use pi_sidebar::telemetry::model_catalog::{catalog_lookup, context_window_for, ModelEntry};
use pi_sidebar::telemetry::session_log::read_entries;
use pi_sidebar::telemetry::session_stats::{checked_session_stats, session_stats};

const LOG: &str = r#"{"type":"session","id":"s1","cwd":"/w","timestamp":"t0"}
{"type":"model_change","provider":"acme","modelId":"m1","timestamp":"t1"}
{"type":"thinking_level_change","thinkingLevel":"high"}
{"type":"turn_start"}
{"type":"message","message":{"role":"user","content":"hi"}}
{"type":"message","message":{"role":"assistant","provider":"vendor","model":"big","content":[{"type":"tool_call"},{"type":"text","text":"x"}],"usage":{"input":10,"output":5,"cacheRead":2,"cacheWrite":1,"reasoning":3}}}
{"type":"message","message":{"role":"tool_result","isError":true}}
{"type":"custom","usage":{"input":1,"output":1}}
"#;

#[test]
fn session_log_gives_counts_and_model() {
    let es = read_entries(LOG);
    assert_eq!(es.len(), 8);
    let st = session_stats(&es, "").expect("tokens were used");
    assert_eq!(st.session_id, "s1");
    assert_eq!(st.cwd, "/w");
    assert_eq!(st.provider, "vendor");
    assert_eq!(st.model_id, "big");
    assert_eq!(st.thinking_level, "high");
    assert_eq!(st.input_tokens, 11);
    assert_eq!(st.output_tokens, 6);
    assert_eq!(st.cache_read, 2);
    assert_eq!(st.cache_write, 1);
    assert_eq!(st.reasoning_tokens, 3);
    assert_eq!(st.turns_count, 1);
    assert_eq!(st.tool_calls_count, 2);
    assert_eq!(st.tool_errors_count, 1);
    assert!(st.is_working);
    assert_eq!(st.last_entry_ts, "t1");
    assert_eq!(st.costed.len(), 2);
    assert_eq!(st.costed[0].entry, 5);
    assert!(st.costed[0].in_message);
    assert_eq!(st.costed[0].provider, "vendor");
    assert_eq!(st.costed[1].entry, 7);
    assert!(!st.costed[1].in_message);
    assert_eq!(st.costed[1].model, "big");
}

#[test]
fn a_known_session_id_is_kept() {
    let es = read_entries(LOG);
    let st = session_stats(&es, "given").unwrap();
    assert_eq!(st.session_id, "given");
}

#[test]
fn a_log_without_tokens_or_model_says_nothing() {
    let es = read_entries("{\"type\":\"session\",\"id\":\"s\"}\n{\"type\":\"turn_start\"}\n");
    assert!(session_stats(&es, "").is_none());
    assert_eq!(checked_session_stats(&es, "").map(|s| s.is_none()), Some(true));
}

fn catalog() -> Vec<(String, Vec<ModelEntry>)> {
    vec![
        (
            "openrouter".to_string(),
            vec![ModelEntry { id: "big".to_string(), context_window: 100 }],
        ),
        (
            "vendor".to_string(),
            vec![
                ModelEntry { id: "o1".to_string(), context_window: 50 },
                ModelEntry { id: "big".to_string(), context_window: 200 },
            ],
        ),
        (
            "".to_string(),
            vec![ModelEntry { id: "local".to_string(), context_window: 7 }],
        ),
    ]
}

#[test]
fn catalog_prefers_the_named_provider() {
    let cat = catalog();
    assert_eq!(catalog_lookup(&cat, "vendor", "big"), Some((1, 1)));
    assert_eq!(context_window_for(&cat, "vendor", "big"), 200);
    assert_eq!(context_window_for(&cat, "acme", "big"), 0);
}

#[test]
fn catalog_without_provider_takes_the_first_match() {
    let cat = catalog();
    assert_eq!(context_window_for(&cat, "", "big"), 100);
    assert_eq!(context_window_for(&cat, "", "local"), 7);
    assert_eq!(context_window_for(&cat, "", "missing"), 0);
}

fn usage_of(input: u64, cache_read: u64, cache_write: u64, cache_write_1h: u64) -> pi_sidebar::telemetry::session_log::Usage {
    pi_sidebar::telemetry::session_log::Usage {
        input,
        output: 0,
        cache_read,
        cache_write,
        cache_write_1h,
        total_tokens: 0,
        reasoning: 0,
        cost_total: None,
    }
}

#[test]
fn the_highest_exceeded_tier_prices_the_prompt() {
    let tiers = [200_000u64, 100_000, 300_000];
    assert_eq!(select_tier(&tiers, &usage_of(150_000, 60_000, 0, 0)), Some(0));
    assert_eq!(select_tier(&tiers, &usage_of(150_000, 0, 0, 0)), Some(1));
    assert_eq!(select_tier(&[100_000, 200_000], &usage_of(250_000, 0, 0, 0)), Some(1));
    assert_eq!(select_tier(&[200_000, 100_000], &usage_of(250_000, 0, 0, 0)), Some(0), "a lower threshold after a higher one is passed over");
    assert_eq!(select_tier(&tiers, &usage_of(400_000, 0, 0, 0)), Some(2));
    assert_eq!(select_tier(&[0], &usage_of(5, 0, 0, 0)), None);
    assert_eq!(select_tier(&[], &usage_of(5, 0, 0, 0)), None);
}

#[test]
fn one_hour_writes_are_split_off() {
    assert_eq!(cache_write_split(&usage_of(0, 0, 100, 30)), (70, 30));
    assert_eq!(cache_write_split(&usage_of(0, 0, 10, 30)), (0, 10));
}
