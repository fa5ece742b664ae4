use pi_sidebar::telemetry::openrouter_live::{
    accounts_to_check, auth_key, credential_key, key_from_source, key_source, resolve_account_key,
    AccountConfig, Credential,
};

fn cred(provider: &str, key: Option<&str>, access: Option<&str>) -> Credential {
    Credential {
        provider: provider.to_string(),
        key: key.map(str::to_string),
        access: access.map(str::to_string),
    }
}

fn account(id: &str, label: Option<&str>) -> AccountConfig {
    AccountConfig { id: id.to_string(), label: label.map(str::to_string), api_key: None }
}

#[test]
fn a_credential_prefers_its_key_even_when_blank() {
    assert_eq!(credential_key(&cred("x", Some(" k1 "), Some("a"))), Some("k1".to_string()));
    assert_eq!(credential_key(&cred("x", None, Some(" a "))), Some("a".to_string()));
    assert_eq!(credential_key(&cred("x", Some("  "), Some("a"))), None);
    assert_eq!(credential_key(&cred("x", None, None)), None);
}

#[test]
fn auth_is_looked_up_by_provider() {
    let auth = vec![cred("openrouter-work", Some("w"), None), cred("openrouter", Some("r"), None)];
    assert_eq!(auth_key(&auth, "openrouter"), Some("r".to_string()));
    assert_eq!(auth_key(&auth, "openrouter-work"), Some("w".to_string()));
    assert_eq!(auth_key(&auth, "anthropic-x"), None);
}

#[test]
fn an_account_key_falls_back_in_order() {
    let auth = vec![cred("openrouter-work", Some("stored"), None), cred("openrouter", Some("root"), None)];
    let key = |id: &str, pid: &str, src: Option<&str>, env: Option<&str>, root: Option<&str>| {
        resolve_account_key(id, pid, &auth, src.map(str::to_string), env.map(str::to_string), root.map(str::to_string))
    };
    assert_eq!(key("work", "openrouter-work", Some("s"), None, None), Some("stored".to_string()));
    assert_eq!(key("home", "openrouter-home", Some("s"), Some("e"), None), Some("s".to_string()));
    assert_eq!(key("home", "openrouter-home", None, Some(" e "), None), Some("e".to_string()));
    assert_eq!(key("home", "openrouter-home", None, Some("  "), Some("r")), None);
    assert_eq!(key("default", "openrouter-default", None, None, Some("r")), Some("root".to_string()));
    let empty: Vec<Credential> = Vec::new();
    assert_eq!(
        resolve_account_key("default", "openrouter-default", &empty, None, None, Some(" r ".to_string())),
        Some("r".to_string())
    );
}

#[test]
fn a_source_yields_its_key() {
    assert_eq!(key_from_source(&key_source("sk-1"), None, None), Some("sk-1".to_string()));
    assert_eq!(key_from_source(&key_source("$VAR"), Some(" v ".to_string()), None), Some(" v ".to_string()));
    assert_eq!(key_from_source(&key_source("$VAR"), Some("  ".to_string()), None), None);
    assert_eq!(key_from_source(&key_source("!pass x"), None, Some(" out\n".to_string())), Some("out".to_string()));
    assert_eq!(key_from_source(&key_source("!pass x"), None, None), None);
    assert_eq!(key_from_source(&key_source("  "), Some("v".to_string()), None), None);
}

#[test]
fn accounts_to_check_add_root_and_stored_slugs() {
    let configured = vec![(account("work", Some("Work")), Some("k".to_string())), (account("home", None), None)];
    let auth = vec![
        cred("openrouter-work", Some("dup"), None),
        cred("openrouter-extra", Some(" x "), None),
        cred("openrouter-blank", Some(" "), None),
        cred("openrouter", None, Some("root")),
    ];
    let rows = accounts_to_check(&configured, &auth, None);
    let got: Vec<(String, String, Option<String>)> = rows.into_iter().map(|a| (a.id, a.label, a.key)).collect();
    assert_eq!(
        got,
        vec![
            ("work".to_string(), "Work".to_string(), Some("k".to_string())),
            ("home".to_string(), "home".to_string(), None),
            ("openrouter".to_string(), "OpenRouter".to_string(), Some("root".to_string())),
            ("extra".to_string(), "extra".to_string(), Some("x".to_string())),
        ]
    );
    let with_root = vec![(account("default", None), Some("d".to_string()))];
    let rows = accounts_to_check(&with_root, &[], Some("env".to_string()));
    assert_eq!(rows.len(), 1);
    let none: Vec<(AccountConfig, Option<String>)> = Vec::new();
    let rows = accounts_to_check(&none, &[], Some(" env ".to_string()));
    assert_eq!(rows[0].key, Some(" env ".to_string()));
}
