use pi_sidebar::shortcuts::usage::parse::Counters;
use pi_sidebar::shortcuts::usage::scan::{checked_total, newest_of, summarize, Fingerprint};

fn count(t: &[(String, u64)], name: &str) -> Option<u64> {
    t.iter().find(|(n, _)| n == name).map(|(_, c)| *c)
}

#[test]
fn counts_tools_skills_and_commands_from_a_real_shaped_file() {
    let lines = [
        r#"{"type": "message", "message": {"role": "assistant", "content": [{"type": "toolCall", "name": "ctx_execute", "arguments": {"path": "/skills/pi-plugin-dev/SKILL.md"}}]}}"#,
        r#"{"type": "message", "message": {"role": "user", "content": [{"type": "text", "text": "/goal ship it"}]}}"#,
        r#"{"type": "message", "message": {"role": "assistant", "content": [{"type": "toolCall", "name": "bash", "arguments": {}}]}}"#,
    ];
    let text = lines.join("\n");

    let mut counters = Counters::new();
    for line in text.lines() {
        assert!(counters.count_line(line));
    }

    assert_eq!(counters.messages, 3);
    assert_eq!(count(&counters.tools, "ctx_execute"), Some(1));
    assert_eq!(count(&counters.tools, "bash"), Some(1));
    assert_eq!(count(&counters.skills, "pi-plugin-dev"), Some(1));
    assert_eq!(count(&counters.commands, "/goal"), Some(1));
    assert_eq!(counters.builtin_calls(), 1);
}

#[test]
fn skill_commands_count_as_skills_and_commands() {
    let mut c = Counters::new();
    assert!(c.count_line(r#"{"type":"message","message":{"role":"user","content":"/skill:review now"}}"#));
    assert!(c.count_line(r#"{"type":"message","message":{"role":"user","content":"/skill:review"}}"#));
    assert_eq!(c.messages, 2);
    assert_eq!(count(&c.skills, "review"), Some(2));
    assert_eq!(count(&c.commands, "/skill:review"), Some(2));
}

#[test]
fn lines_that_do_not_read_only_count_as_messages() {
    let mut c = Counters::new();
    // A part that is not an object makes the whole line unreadable.
    assert!(c.count_line(r#"{"type":"message","message":{"role":"assistant","content":[1,{"type":"toolCall","name":"bash"}]}}"#));
    assert!(c.count_line("not json \"toolCall\""));
    assert_eq!(c.messages, 1);
    assert!(c.tools.is_empty());
}

#[test]
fn a_pass_summarizes_into_ranked_rows() {
    let mut counters = Counters::new();
    for name in ["ctx_execute", "ctx_execute", "ctx_search", "bash", "bash", "bash"] {
        counters.add_tool(name);
    }
    for i in 0..25 {
        counters.commands.push((format!("/c{i:02}"), 1));
    }
    counters.messages = 6;
    let stats = summarize(&counters, 2, Some(1_700_000_000), 12).expect("fits");
    assert_eq!(stats.files, 2);
    assert_eq!(stats.messages, 6);
    assert_eq!(stats.tool_calls, 6);
    assert_eq!(stats.builtin_calls, 3);
    assert_eq!(stats.plugins[0].plugin, "builtin");
    assert_eq!(stats.plugins[1].plugin, "context-mode");
    assert_eq!(stats.plugins[1].calls, 3);
    assert_eq!(stats.tools[0].name, "bash");
    assert_eq!(stats.tools.len(), 3);
    assert_eq!(stats.commands.len(), 25, "every slash-command is listed");
    assert_eq!(stats.commands[0].name, "/c00");
    assert_eq!(stats.elapsed_ms, 12);
    assert_eq!(stats.newest_session, Some(1_700_000_000));
}

#[test]
fn an_overflowing_tally_has_no_summary() {
    let mut counters = Counters::new();
    counters.tools.push(("bash".to_string(), u64::MAX));
    counters.tools.push(("read".to_string(), 1));
    assert_eq!(checked_total(&counters.tools), None);
    assert!(summarize(&counters, 1, None, 0).is_none());
}

#[test]
fn fingerprint_grows_with_each_file() {
    let fp = Fingerprint { files: 1, bytes: 0, newest_mtime: 0 };
    let before = fp.with_file(1, Some(10));
    let after = fp.with_file(4, Some(10));
    assert_ne!(before, after, "byte growth must invalidate the cache");
    assert_eq!(after.files, 1);
    assert_eq!(after.bytes, 4);
    assert_eq!(fp.with_file(0, Some(5)).with_file(0, None).newest_mtime, 5);
}

#[test]
fn newest_keeps_the_latest_time() {
    assert_eq!(newest_of(None, 7), Some(7));
    assert_eq!(newest_of(Some(9), 7), Some(9));
    assert_eq!(newest_of(Some(3), 7), Some(7));
}
