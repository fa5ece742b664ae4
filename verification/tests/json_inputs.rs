use pi_sidebar::json::Json;
use pi_sidebar::shared::client::{created_pane_id, panes_of};
use pi_sidebar::telemetry::mcp_live::servers_of;
use pi_sidebar::telemetry::quota_live::antigravity_auth_of;
use pi_sidebar::telemetry::spai_live::spai_index_of;
use pi_sidebar::telemetry::quota_live::quota_reply_buckets;
use pi_sidebar::telemetry::session_log::session_header_cwd;
use pi_sidebar::telemetry::skills_live::package_manifest_checks;

fn obj(members: Vec<(&str, Json)>) -> Json {
    let (ks, vs): (Vec<String>, Vec<Json>) = members.into_iter().map(|(k, v)| (k.to_string(), v)).unzip();
    Json::Object(ks, vs)
}

fn s(t: &str) -> Json {
    Json::Str(t.to_string())
}

#[test]
fn panes_are_read_from_the_result_envelope() {
    let pane = obj(vec![("pane_id", s("w1:p2")), ("tab_id", s("t1")), ("focused", Json::Bool(true))]);
    let reply = obj(vec![("result", obj(vec![("panes", Json::Array(vec![pane]))]))]);
    let panes = panes_of(reply);
    assert_eq!(panes.len(), 1);
    assert_eq!(panes[0].pane_id, "w1:p2");
    assert_eq!(panes[0].tab_id.as_deref(), Some("t1"));
    assert_eq!(panes[0].focused, Some(true));
    assert!(panes[0].label.is_none());
}

#[test]
fn a_reply_without_result_has_no_panes() {
    assert!(panes_of(obj(vec![("error", s("x"))])).is_empty());
    assert!(panes_of(Json::Array(Vec::new())).is_empty());
    let bad_pane = obj(vec![("pane_id", Json::Num("3".to_string()))]);
    let reply = obj(vec![("result", obj(vec![("panes", Json::Array(vec![bad_pane]))]))]);
    assert!(panes_of(reply).is_empty());
}

#[test]
fn manifest_with_core_dependency_fails_the_peer_gate() {
    let v = obj(vec![("dependencies", obj(vec![("@earendil-works/pi-core", s("1"))])), ("type", s("module"))]);
    let checks = package_manifest_checks(&v);
    assert_eq!(checks.len(), 1);
    assert_eq!(checks[0].rule, "peer-deps");
    assert_eq!(checks[0].status, "fail");
}

#[test]
fn manifest_without_module_type_warns() {
    let v = obj(vec![("dependencies", obj(vec![("left-pad", s("1"))]))]);
    let checks = package_manifest_checks(&v);
    assert_eq!(checks.len(), 2);
    assert_eq!(checks[0].status, "pass");
    assert_eq!(checks[1].rule, "manifest-hygiene");
    assert_eq!(checks[1].status, "warn");
    assert!(package_manifest_checks(&obj(vec![("type", s("module"))])).is_empty());
}

#[test]
fn session_header_names_the_working_directory() {
    let log = "{\"type\":\"session\",\"cwd\":\"/home/me/proj\"}\n{\"type\":\"message\"}\n";
    assert_eq!(session_header_cwd(log).as_deref(), Some("/home/me/proj"));
    assert_eq!(session_header_cwd("{\"type\":\"session\"}\n{\"cwd\":\"/x\"}"), None);
    assert_eq!(session_header_cwd("{\"cwd\":3}"), None);
    assert_eq!(session_header_cwd("not json\n"), None);
    assert_eq!(session_header_cwd(""), None);
}

#[test]
fn quota_reply_lists_own_then_group_buckets() {
    let reply = "{\"buckets\":[{\"bucketId\":\"a\",\"remainingFraction\":0.5}],\
                 \"groups\":[{\"buckets\":[{\"window\":\"5h\",\"resetTime\":\"2026-01-01T00:00:00Z\"}]},{}]}";
    let bs = quota_reply_buckets(reply).unwrap();
    assert_eq!(bs.len(), 2);
    assert_eq!(bs[0].bucket.bucket_id.as_deref(), Some("a"));
    assert_eq!(bs[0].remaining_fraction.as_deref(), Some("0.5"));
    assert_eq!(bs[1].bucket.window.as_deref(), Some("5h"));
    assert_eq!(bs[1].bucket.reset_time.as_deref(), Some("2026-01-01T00:00:00Z"));
    assert!(bs[1].remaining_fraction.is_none());
}

#[test]
fn quota_reply_that_does_not_read_gives_nothing() {
    assert!(quota_reply_buckets("{}").unwrap().is_empty());
    assert!(quota_reply_buckets("{\"buckets\":null}").is_none());
    assert!(quota_reply_buckets("{\"buckets\":[{\"remainingFraction\":\"half\"}]}").is_none());
    assert!(quota_reply_buckets("{\"groups\":[3]}").is_none());
    assert!(quota_reply_buckets("[]").is_none());
    assert!(quota_reply_buckets("oops").is_none());
}

#[test]
fn auth_prefers_the_antigravity_entry() {
    let entry = |tok: &str, proj: &str| obj(vec![("access", s(tok)), ("projectId", s(proj)), ("refresh", s("r1"))]);
    let v = obj(vec![("google", entry("g-tok", "g-proj")), ("antigravity", entry("a-tok", "a-proj"))]);
    let a = antigravity_auth_of(&v).unwrap();
    assert_eq!(a.token, "a-tok");
    assert_eq!(a.project_id, "a-proj");
    assert_eq!(a.refresh.as_deref(), Some("r1"));
    assert!(antigravity_auth_of(&obj(vec![])).is_none());
    assert!(antigravity_auth_of(&obj(vec![("google", s("x"))])).is_none());
}

#[test]
fn spai_index_reads_version_and_records() {
    let rec = obj(vec![("id", s("SPAI-001")), ("title", s("First"))]);
    let v = obj(vec![("version", Json::Num("2".to_string())), ("records", Json::Array(vec![rec]))]);
    let ix = spai_index_of(&v).unwrap();
    assert_eq!(ix.version, 2);
    assert_eq!(ix.last_updated, "");
    assert_eq!(ix.records.len(), 1);
    let bad = obj(vec![("records", Json::Array(vec![obj(vec![("title", s("no id"))])]))]);
    assert!(spai_index_of(&bad).is_none());
    assert!(spai_index_of(&Json::Null).is_none());
}

#[test]
fn mcp_servers_are_the_keys_of_mcp_servers() {
    let v = obj(vec![("mcpServers", obj(vec![("github", obj(vec![])), ("fs", obj(vec![]))]))]);
    assert_eq!(servers_of(&v), vec!["github".to_string(), "fs".to_string()]);
    assert!(servers_of(&obj(vec![("mcpServers", Json::Array(vec![]))])).is_empty());
}

#[test]
fn split_reply_names_the_new_pane() {
    let v = obj(vec![("result", obj(vec![("pane", obj(vec![("pane_id", s("w1:p9"))]))]))]);
    assert_eq!(created_pane_id(&v), "w1:p9");
    assert_eq!(created_pane_id(&obj(vec![("result", Json::Null)])), "unknown");
}
