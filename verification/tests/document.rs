use pi_sidebar::shortcuts::document::{document, line_text, DocLine, Tone};
use pi_sidebar::shortcuts::usage::model::{Counted, PluginUsage, UsageStats};

/// Fixture with `n` items per section; names stay shorter than the name
/// column so the only ellipsis that could appear would be a bug.
fn stats_with(plugins: usize, skills: usize, commands: usize, tools: usize) -> UsageStats {
    UsageStats {
        files: 430,
        messages: 72_111,
        tool_calls: 33_882,
        builtin_calls: 29_931,
        plugins: (0..plugins)
            .map(|i| PluginUsage {
                plugin: format!("plugin-{i:02}"),
                calls: (plugins - i) as u64,
                tools: vec![(format!("tool-{i:02}"), 1)],
            })
            .collect(),
        tools: (0..tools)
            .map(|i| Counted {
                name: format!("tool-{i:02}"),
                count: (tools - i) as u64,
            })
            .collect(),
        skills: (0..skills)
            .map(|i| Counted {
                name: format!("skill-{i:02}"),
                count: (skills - i) as u64,
            })
            .collect(),
        commands: (0..commands)
            .map(|i| Counted {
                name: format!("cmd-{i:02}"),
                count: 1,
            })
            .collect(),
        elapsed_ms: 342,
        newest_session: None,
    }
}

fn document_text(doc: &[DocLine]) -> String {
    doc.iter().map(line_text).collect::<Vec<_>>().join("\n")
}

#[test]
fn document_contains_every_item_and_truncates_nothing() {
    let stats = stats_with(30, 30, 30, 40);
    let text = document_text(&document(&stats));

    for i in 0..30 {
        assert!(text.contains(&format!("plugin-{i:02}")), "missing plugin {i}");
        assert!(text.contains(&format!("skill-{i:02}")), "missing skill {i}");
        assert!(text.contains(&format!("cmd-{i:02}")), "missing command {i}");
    }
    for i in 0..40 {
        assert!(text.contains(&format!("tool-{i:02}")), "missing tool {i}");
    }

    assert!(!text.contains("dalších"), "no 'and N more' rows");
    assert!(!text.contains('…'), "nothing is elided in the document");
}

#[test]
fn document_has_a_header_per_section_with_counts() {
    let stats = stats_with(4, 3, 2, 5);
    let text = document_text(&document(&stats));
    assert!(text.contains("Pluginy (4)"));
    assert!(text.contains("Skilly (3)"));
    assert!(text.contains("Příkazy (2)"));
    assert!(text.contains("Nástroje (5)"));
}

#[test]
fn document_rows_have_exact_layout() {
    let stats = stats_with(1, 0, 0, 1);
    let doc = document(&stats);
    let lines: Vec<String> = doc.iter().map(line_text).collect();
    assert_eq!(lines[0], "▌ Pluginy (1) · 3\u{202f}951 volání");
    assert_eq!(
        lines[1],
        format!("  plugin-00{}{} {:>7}  tool-00 1", " ".repeat(13), "█".repeat(12), "1")
    );
    assert_eq!(lines[2], "");
    assert_eq!(lines[3], "▌ Skilly (0) · čtení SKILL.md");
    assert_eq!(lines[4], "    (žádná data)");
    assert_eq!(lines[5], "");
    assert_eq!(lines[6], "▌ Příkazy (0)");
    assert_eq!(lines[7], "    (žádná data)");
    assert_eq!(lines[9], "▌ Nástroje (1) · vestavěné 29\u{202f}931");
    assert_eq!(lines[10], format!("  tool-00{}       1  other", " ".repeat(15)));
    assert_eq!(lines.len(), 11);
    assert!(doc[0].spans[0].tone == Tone::Accent);
    assert!(doc[1].spans[1].tone == Tone::PluginBar);
}
