use pi_sidebar::telemetry::skills::{action_icon, gate_badge};
use pi_sidebar::telemetry::skills_live::{iso_to_epoch_ms, parse_skills_str, strip_comments};

const SAMPLE: &str = r#"
{"type":"session","cwd":"D:\\proj","timestamp":"2026-09-23T21:00:00.000Z"}
{"type":"message","timestamp":"2026-09-23T21:00:01.000Z","message":{"role":"user","content":[{"type":"text","text":"go"}]}}
{"type":"message","timestamp":"2026-09-23T21:00:02.000Z","message":{"role":"assistant","content":[{"type":"toolCall","name":"read","arguments":{"path":"C:\\Users\\x\\.pi\\agent\\skills\\pi-plugin-dev\\SKILL.md"}}]}}
{"type":"message","timestamp":"2026-09-23T21:00:03.000Z","message":{"role":"assistant","content":[{"type":"toolCall","name":"read","arguments":{"path":"C:\\skill\\references\\tools-and-schema.md"}}]}}
{"type":"message","timestamp":"2026-09-23T21:00:04.000Z","message":{"role":"toolResult","content":[]}}
{"type":"message","timestamp":"2026-09-23T21:00:05.000Z","message":{"role":"assistant","content":[{"type":"toolCall","name":"edit","arguments":{"path":"src/tool.ts","edits":[{"newText":"pi.registerTool('x', { execute() { const s = Type.Object({ mode: Type.Union([Type.Literal('a'), Type.Literal('b')]) }); throw new Error('bad'); } })"}]}}]}}
{"type":"message","timestamp":"2026-09-23T21:00:06.000Z","message":{"role":"assistant","content":[{"type":"toolCall","name":"bash","arguments":{"command":"cargo test"}}]}}
{"type":"message","timestamp":"2026-09-23T21:00:07.000Z","message":{"role":"assistant","content":[{"type":"text","text":"done"}]}}
"#;

#[test]
fn derives_skill_state_from_session() {
    let f = parse_skills_str(SAMPLE);
    assert!(f.live);
    let s = f.state.as_ref().unwrap();

    assert_eq!(s.active_skill.as_deref(), Some("pi-plugin-dev"));
    assert_eq!(s.references.len(), 1);
    assert!(s
        .references
        .iter()
        .any(|r| r.name == "tools-and-schema.md" && r.summary.contains("StringEnum")));
    assert!(!s.actions.is_empty());
    assert_eq!(s.turn_count, 1);
    assert!(s.in_turn == false, "final assistant text message = settled");
    assert_eq!(s.inspected_count, 0);
    assert_eq!(s.modified_count, 1);

    assert!(s.compliance.iter().any(|c| c.rule == "string-enum" && c.status == "fail"));
    assert!(s.compliance.iter().any(|c| c.rule == "error-throw" && c.status == "pass"));

    assert_eq!(s.last_update_time - s.start_time, 5000);
    let (passed, total) = f.gate_score();
    assert_eq!(total, s.compliance.len());
    assert!(passed < total);
}

#[test]
fn iso_parse() {
    assert_eq!(iso_to_epoch_ms("2026-09-23T21:02:02.995Z"), Some(1_790_197_322_995));
    assert_eq!(iso_to_epoch_ms("not-a-date"), None);
}

#[test]
fn strip_comments_keeps_urls() {
    let code = "let u = \"https://x.y/a\"; // real comment\n/* block */ let b = 1;";
    let out = strip_comments(code);
    assert!(out.contains("https://x.y/a"));
    assert!(!out.contains("real comment"));
    assert!(!out.contains("block"));
}

#[test]
fn badges_and_icons_follow_the_status() {
    assert_eq!(gate_badge("pass"), "PASS");
    assert_eq!(gate_badge("fail"), "FAIL");
    assert_eq!(gate_badge("weird"), "WARN");
    assert_eq!(action_icon("bash"), "🧪");
    assert_eq!(action_icon("other"), "📖");
}
