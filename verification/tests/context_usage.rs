use pi_sidebar::telemetry::context_usage::{checked_context_tokens, estimate_context_tokens};
use pi_sidebar::telemetry::session_log::{read_entries, Entry};

fn entries(jsonl: &str) -> Vec<Entry> {
    read_entries(jsonl)
}

fn assistant(id: &str, total: u64, extra: &str) -> String {
    format!(
        r#"{{"type":"message","id":"{id}","message":{{"role":"assistant","stopReason":"stop","model":"m","provider":"p","usage":{{"input":10,"output":20,"cacheRead":0,"cacheWrite":0,"totalTokens":{total}}}{extra}}}}}"#
    )
}

/// Assistant whose usage has no tokens at all (pi rejects it as context).
fn empty_assistant(id: &str) -> String {
    format!(
        r#"{{"type":"message","id":"{id}","message":{{"role":"assistant","stopReason":"stop","usage":{{"input":0,"output":0,"cacheRead":0,"cacheWrite":0,"totalTokens":0}}}}}}"#
    )
}

#[test]
fn last_assistant_usage_wins() {
    let log = format!("{}\n{}\n", assistant("a1", 1000, ""), assistant("a2", 2500, ""));
    assert_eq!(estimate_context_tokens(&entries(&log)), Some(2500));
}

#[test]
fn aborted_and_errored_usages_are_ignored() {
    let log = format!(
        "{}\n{}\n{}\n",
        assistant("a1", 1000, ""),
        assistant("a2", 9000, "").replace("\"stop\"", "\"aborted\""),
        assistant("a3", 8000, "").replace("\"stop\"", "\"error\"")
    );
    assert_eq!(estimate_context_tokens(&entries(&log)), Some(1000));
}

#[test]
fn all_zero_usage_assistant_is_ignored() {
    let log = format!("{}\n{}\n", assistant("a1", 1000, ""), empty_assistant("a2"));
    assert_eq!(estimate_context_tokens(&entries(&log)), Some(1000));
}

#[test]
fn trailing_messages_are_estimated() {
    // 400 chars of tool result after the usage -> 100 estimated tokens.
    let log = format!(
        "{}\n{}\n",
        assistant("a1", 1000, ""),
        format!(
            r#"{{"type":"message","id":"t1","message":{{"role":"toolResult","content":[{{"type":"text","text":"{}"}}]}}}}"#,
            "x".repeat(400)
        )
    );
    assert_eq!(estimate_context_tokens(&entries(&log)), Some(1100));
}

#[test]
fn context_edit_after_usage_keeps_last_measurement() {
    let log = format!(
        "{}\n{}\n",
        assistant("a1", 400_000, ""),
        r#"{"type":"context_edit","id":"e1","targetId":"t1","replacement":null}"#
    );
    assert_eq!(estimate_context_tokens(&entries(&log)), Some(400_000));
}

#[test]
fn usage_after_context_edit_is_trusted() {
    let log = format!(
        "{}\n{}\n{}\n",
        assistant("a1", 400_000, ""),
        r#"{"type":"context_edit","id":"e1","targetId":"t1","replacement":null}"#,
        assistant("a2", 5000, "")
    );
    assert_eq!(estimate_context_tokens(&entries(&log)), Some(5000));
}

#[test]
fn compaction_after_usage_makes_it_unknown() {
    let log = format!(
        "{}\n{}\n",
        assistant("a1", 400_000, ""),
        r#"{"type":"compaction","id":"c1","summary":"compressed"}"#
    );
    assert_eq!(estimate_context_tokens(&entries(&log)), None);
}

#[test]
fn omission_removes_trailing_target_tokens() {
    let big_tool_result = format!(
        r#"{{"type":"message","id":"t1","message":{{"role":"toolResult","content":[{{"type":"text","text":"{}"}}]}}}}"#,
        "x".repeat(400)
    );
    let log = format!(
        "{}\n{}\n{}\n",
        assistant("a1", 1000, ""),
        big_tool_result,
        r#"{"type":"context_edit","id":"e1","targetId":"t1","replacement":null}"#
    );
    // The omitted tool result stops contributing its 400 chars (100 tokens).
    assert_eq!(estimate_context_tokens(&entries(&log)), Some(1000));
}

#[test]
fn edits_before_the_usage_do_not_change_it() {
    let log = format!(
        "{}\n{}\n{}\n",
        assistant("a1", 900, ""),
        r#"{"type":"context_edit","id":"e1","targetId":"a1","replacement":{"content":[{"type":"text","text":"tiny"}]}}"#,
        assistant("a2", 2500, "")
    );
    assert_eq!(estimate_context_tokens(&entries(&log)), Some(2500));
}

#[test]
fn replacement_swaps_trailing_content() {
    let log = format!(
        "{}\n{}\n{}\n",
        assistant("a1", 1000, ""),
        r#"{"type":"message","id":"t1","message":{"role":"toolResult","content":[{"type":"text","text":"xxxxxxxxxxxxxxxxxxxxxxxxxxxxxxxxxxxxxxxx"}]}}"#,
        r#"{"type":"context_edit","id":"e1","targetId":"t1","replacement":{"content":[{"type":"text","text":"short"}]}}"#
    );
    // 5 chars -> 2 tokens instead of the original 10.
    assert_eq!(estimate_context_tokens(&entries(&log)), Some(1002));
}

#[test]
fn no_usage_at_all_is_unknown() {
    let log = r#"{"type":"session","id":"s1","cwd":"C:\\tmp"}
{"type":"message","id":"u1","message":{"role":"user","content":"hi"}}
"#;
    assert_eq!(estimate_context_tokens(&entries(log)), None);
}

#[test]
fn usage_parts_count_when_total_is_missing() {
    let log = r#"{"type":"message","message":{"role":"assistant","usage":{"input":100,"output":20,"cacheRead":3,"cacheWrite":4}}}"#;
    assert_eq!(estimate_context_tokens(&entries(log)), Some(127));
}

#[test]
fn tool_calls_count_their_name_and_arguments_text() {
    // "read" (4) + {"path":"a"} (12) = 16 chars -> 4 tokens.
    let log = format!(
        "{}\n{}\n",
        assistant("a1", 1000, ""),
        r#"{"type":"message","id":"x","message":{"role":"assistant","stopReason":"aborted","content":[{"type":"toolCall","name":"read","arguments":{"path":"a"}}]}}"#
    );
    assert_eq!(estimate_context_tokens(&entries(&log)), Some(1004));
}

#[test]
fn images_and_summaries_are_estimated() {
    let log = format!(
        "{}\n{}\n{}\n",
        assistant("a1", 1000, ""),
        r#"{"type":"custom_message","content":[{"type":"image"}]}"#,
        r#"{"type":"branch_summary","summary":"abcde"}"#
    );
    // 4800 chars -> 1200 tokens, 5 chars -> 2 tokens.
    assert_eq!(estimate_context_tokens(&entries(&log)), Some(2202));
}

#[test]
fn checked_estimate_agrees_on_ordinary_logs() {
    let log = format!("{}\n", assistant("a1", 1000, ""));
    assert_eq!(checked_context_tokens(&entries(&log)), Some(Some(1000)));
}

#[test]
fn malformed_lines_are_skipped() {
    let log = format!(
        "not json\n{}\n{}\n",
        assistant("a1", 1000, ""),
        r#"{"type":"message","message":{"role":"assistant","usage":{"totalTokens":-5}}}"#
    );
    let es = entries(&log);
    assert_eq!(es.len(), 1);
    assert_eq!(es[0].id.as_deref(), Some("a1"));
}

#[test]
fn context_is_unknown_without_a_usable_usage() {
    assert_eq!(checked_context_tokens(&entries("")), Some(None));
    let log = format!("{}\n", empty_assistant("a1"));
    assert_eq!(checked_context_tokens(&entries(&log)), Some(None));
    assert_eq!(estimate_context_tokens(&entries(&log)), None);
}
