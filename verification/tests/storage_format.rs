use pi_sidebar::spai_notes::note::{parse_spai_prefix, SpaiFacets, SpaiNoteItem, SpaiStatus, SpaiType};
use pi_sidebar::spai_notes::storage_format::{
    format_spai_markdown, parse_spai_markdown, slugify, update_body_status_prefix,
};

fn sample_item() -> SpaiNoteItem {
    SpaiNoteItem {
        id: "SPAI-007".to_string(),
        title: "Fix the \"bar\" panel".to_string(),
        kind: SpaiType::Todo,
        status: SpaiStatus::Working,
        symbol: "/".to_string(),
        timestamp: "2026-01-02 10:00".to_string(),
        tags: vec!["ui".to_string(), "bug".to_string()],
        facets: SpaiFacets {
            project: Some("sidebar".to_string()),
            project_path: None,
            priority: Some("high".to_string()),
            deadline: None,
        },
        body: "\n  / fix it\n\n".to_string(),
        file_path: String::new(),
        file_name: String::new(),
    }
}

#[test]
fn slug_keeps_words_and_single_dashes() {
    assert_eq!(slugify("Hello World!"), "hello-world");
    assert_eq!(slugify("  --a__b  c--"), "a-b-c");
    assert_eq!(slugify("Žluťoučký kůň"), "Žluťoučký-kůň");
    assert_eq!(slugify("!!!"), "");
}

#[test]
fn slug_is_cut_to_fifty_bytes() {
    let long = "a".repeat(60);
    assert_eq!(slugify(&long), "a".repeat(50));
    let dashed = format!("{} b", "a".repeat(49));
    assert_eq!(slugify(&dashed), "a".repeat(49));
}

#[test]
fn slug_cut_never_splits_a_char() {
    let title = format!("{}é{}", "a".repeat(49), "b".repeat(10));
    let slug = slugify(&title);
    assert_eq!(slug, "a".repeat(49));
    assert!(slug.len() <= 50);
    let title = format!("{}é{}", "a".repeat(48), "b".repeat(10));
    assert_eq!(slugify(&title), format!("{}é", "a".repeat(48)));
}

#[test]
fn status_prefix_replaces_the_first_marker() {
    assert_eq!(update_body_status_prefix("\n  / fix it\nmore", SpaiStatus::Done), "\n  x fix it\nmore");
    assert_eq!(update_body_status_prefix("plain line", SpaiStatus::Waiting), "/. plain line");
    assert_eq!(update_body_status_prefix("- note", SpaiStatus::Inbox), "- note");
    assert_eq!(update_body_status_prefix("   ", SpaiStatus::Idea), "? \n");
}

#[test]
fn status_prefix_update_is_idempotent() {
    let body = "x done thing\nsecond";
    let once = update_body_status_prefix(body, SpaiStatus::Todo);
    assert_eq!(once, ". done thing\nsecond");
    assert_eq!(update_body_status_prefix(&once, SpaiStatus::Todo), once);
    let other = update_body_status_prefix(&once, SpaiStatus::Cancelled);
    assert_eq!(other, update_body_status_prefix(body, SpaiStatus::Cancelled));
}

#[test]
fn markdown_has_frontmatter_header_and_trimmed_body() {
    let md = format_spai_markdown(&sample_item());
    assert_eq!(
        md,
        "---\ntype: Todo\ntitle: \"Fix the \\\"bar\\\" panel\"\ntimestamp: 2026-01-02 10:00\nstatus: working\nsource: pi-spai\ntags: [ui, bug]\nfacets:\n  priority: high\n  project: sidebar\nspai_symbol: '/'\n---\n\n# SPAI-007: Fix the \"bar\" panel\n\n/ fix it\n"
    );
}

#[test]
fn parsed_note_takes_header_and_file_name() {
    let content = "---\ntype: idea\nstatus: done\ntitle: \"Yaml title\"\n---\n\n# Header title\n\nBody line\n";
    let path = "docs/spai/2026-09-25-SPAI-002-foo.md".to_string();
    let r = parse_spai_markdown(content, path.clone()).unwrap();
    assert_eq!(r.id, "SPAI-002");
    assert_eq!(r.title, "Header title");
    assert!(r.kind == SpaiType::Idea);
    assert!(r.status == SpaiStatus::Done);
    assert_eq!(r.symbol, "x");
    assert_eq!(r.timestamp, "");
    assert!(r.tags.is_empty());
    assert_eq!(r.body, "Body line\n");
    assert_eq!(r.file_name, "2026-09-25-SPAI-002-foo.md");
    assert_eq!(r.file_path, path);
}

#[test]
fn formatted_note_parses_back() {
    let item = sample_item();
    let md = format_spai_markdown(&item);
    let back = parse_spai_markdown(&md, "x/2026-01-02-SPAI-007-fix.md".to_string()).unwrap();
    assert_eq!(back.id, item.id);
    assert_eq!(back.title, item.title);
    assert!(back.kind == item.kind);
    assert!(back.status == item.status);
    assert_eq!(back.timestamp, item.timestamp);
    assert_eq!(back.symbol, item.symbol);
    assert_eq!(back.facets.priority, item.facets.priority);
    assert_eq!(back.facets.project, item.facets.project);
    assert_eq!(back.body, "/ fix it\n");
    assert_eq!(back.file_name, "2026-01-02-SPAI-007-fix.md");
}

#[test]
fn status_prefix_twice_keeps_a_final_bare_carriage_return() {
    let body = "fix it\r";
    let once = update_body_status_prefix(body, SpaiStatus::Done);
    assert_eq!(once, "x fix it\r");
    assert_eq!(update_body_status_prefix(&once, SpaiStatus::Todo), update_body_status_prefix(body, SpaiStatus::Todo));
    assert_eq!(update_body_status_prefix("a\r\nb", SpaiStatus::Done), "x a\nb");
}

#[test]
fn status_names_read_back_in_any_case() {
    let all = [
        SpaiStatus::Todo,
        SpaiStatus::Working,
        SpaiStatus::Waiting,
        SpaiStatus::Done,
        SpaiStatus::Cancelled,
        SpaiStatus::Idea,
        SpaiStatus::Note,
        SpaiStatus::Inbox,
    ];
    for s in all {
        assert!(SpaiStatus::from_str(s.as_str()) == s);
        assert!(SpaiStatus::from_str(&format!(" {} ", s.as_str().to_uppercase())) == s);
    }
    assert!(SpaiStatus::from_str("canceled") == SpaiStatus::Cancelled);
    assert!(SpaiStatus::from_str("whatever") == SpaiStatus::Todo);
}

#[test]
fn slug_of_a_slug_is_itself() {
    for title in ["Hello World!", "  --a__b  c--", "Žluťoučký KŮŇ 42", "ščř", "x y z"] {
        let r = slugify(title);
        assert_eq!(slugify(&r), r);
        assert!(r.len() <= 50);
        assert!(!r.starts_with('-') && !r.ends_with('-') && !r.contains("--"));
        assert!(r.chars().all(|c| c == '-' || (c.is_alphanumeric() && !c.is_ascii_uppercase())));
    }
    let long = format!("{}é{}", "Ab-".repeat(16), "z".repeat(9));
    let r = slugify(&long);
    assert_eq!(slugify(&r), r);
}

#[test]
fn each_status_symbol_reads_back_as_a_prefix() {
    let cases = [
        (SpaiStatus::Todo, SpaiType::Todo),
        (SpaiStatus::Working, SpaiType::Todo),
        (SpaiStatus::Waiting, SpaiType::Todo),
        (SpaiStatus::Done, SpaiType::Todo),
        (SpaiStatus::Cancelled, SpaiType::Todo),
        (SpaiStatus::Idea, SpaiType::Idea),
        (SpaiStatus::Note, SpaiType::Note),
    ];
    for (s, k) in cases {
        let line = format!("  {} task", s.symbol());
        let (p, kind, status) = parse_spai_prefix(&line).unwrap();
        assert_eq!(p, s.symbol());
        assert!(kind == k && status == s);
    }
    assert!(parse_spai_prefix("task").is_none());
    assert!(parse_spai_prefix("x").is_none());
}

#[test]
fn a_note_with_a_blank_body_reads_back_empty() {
    let mut item = sample_item();
    item.body = " \n\t\n".to_string();
    item.tags = Vec::new();
    item.facets = SpaiFacets { project: None, project_path: None, priority: None, deadline: None };
    item.timestamp = String::new();
    let back = parse_spai_markdown(&format_spai_markdown(&item), "n.md".to_string()).unwrap();
    assert_eq!(back.body, "");
    assert_eq!(back.id, item.id);
    assert_eq!(back.title, item.title);
    assert_eq!(back.timestamp, "");
    assert!(back.facets.project.is_none() && back.facets.priority.is_none());
    assert!(back.status == item.status && back.kind == item.kind);
}
