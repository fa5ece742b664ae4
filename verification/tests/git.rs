use pi_sidebar::telemetry::git_live::{
    count_roots,
    build_monorepo_telemetry, extract_edited_paths, parse_commit_lines, parse_git_status,
    RepoTelemetry,
};

#[test]
fn commit_lines_split_at_the_first_two_bars() {
    let cs = parse_commit_lines("abc123|2 hours ago|Fix | pipe in message\n  def456|3 days ago|Init  \nbroken line\n");
    assert_eq!(cs.len(), 2);
    assert_eq!(cs[0].hash, "abc123");
    assert_eq!(cs[0].age, "2 hours ago");
    assert_eq!(cs[0].message, "Fix | pipe in message");
    assert_eq!(cs[1].hash, "def456");
    assert_eq!(cs[1].message, "Init");
}

#[test]
fn porcelain_status_is_counted() {
    let out = "# branch.oid 123\n# branch.head main\n# branch.upstream origin/main\n# branch.ab +2 -5\n1 M. N... 100644 100644 100644 a b file1\n1 .M N... 100644 100644 100644 a b file2\n2 RM N... 100644 100644 100644 a b R100 x y\n? new.txt\n? other.txt\nu UU N... 1 2 3 4 a b c conflict\n";
    let g = parse_git_status(out);
    assert_eq!(g.branch, "main");
    assert_eq!(g.ahead, 2);
    assert_eq!(g.behind, 5);
    assert_eq!(g.staged, 3);
    assert_eq!(g.unstaged, 3);
    assert_eq!(g.untracked, 2);
    assert!(g.recent_commits.is_empty());
}

#[test]
fn malformed_ahead_behind_counts_are_ignored() {
    let g = parse_git_status("# branch.ab 2 -x\n");
    assert_eq!(g.ahead, 0);
    assert_eq!(g.behind, 0);
}

#[test]
fn edited_paths_come_from_edit_and_write_calls() {
    let log = r#"{"type":"message","message":{"content":[{"type":"toolCall","name":"edit","arguments":{"path":"/r/a/x.rs"}},{"type":"toolCall","name":"read","arguments":{"path":"/r/b.rs"}}]}}
{"type":"message","message":{"content":[{"type":"toolCall","name":"write","arguments":{"file_path":"/r/c.rs"}},{"type":"toolCall","name":"write","arguments":{"path":5,"file_path":"/r/d.rs"}}]}}
{"type":"custom","message":{"content":[{"type":"toolCall","name":"edit","arguments":{"path":"/r/e.rs"}}]}}
"#;
    assert_eq!(extract_edited_paths(log), vec!["/r/a/x.rs".to_string(), "/r/c.rs".to_string()]);
}

fn repo(name: &str, touched: u32) -> RepoTelemetry {
    RepoTelemetry {
        name: name.to_string(),
        root: format!("/w/{name}"),
        touched_files: touched,
        recent_commits: Vec::new(),
    }
}

#[test]
fn monorepo_repos_rank_by_touched_files() {
    let g = build_monorepo_telemetry(vec![repo("a", 1), repo("b", 3), repo("c", 1), repo("d", 2)]);
    let names: Vec<&str> = g.touched_repos.iter().map(|r| r.name.as_str()).collect();
    assert_eq!(names, vec!["b", "d", "a", "c"]);
    assert!(g.branch.is_empty());
    assert_eq!(g.staged, 0);
}

#[test]
fn roots_are_counted_in_first_seen_order() {
    let roots: Vec<String> = ["/r/b", "/r/a", "/r/b", "/r/b", "/r/a", "/r/c"].iter().map(|s| s.to_string()).collect();
    let counted = count_roots(&roots);
    assert_eq!(
        counted,
        vec![("/r/b".to_string(), 3), ("/r/a".to_string(), 2), ("/r/c".to_string(), 1)]
    );
    assert!(count_roots(&[]).is_empty());
}
