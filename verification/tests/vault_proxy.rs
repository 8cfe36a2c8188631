use larc::keys::handlers::bearer_token;
use larc::proxy::{Config, ConfigError};
use larc::soulvault::{select_mode, ResearchReport, RetrievalMode, SoulvaultError, VaultConfig, VerifiedSnippet};

#[test]
fn proxy_urls_and_credentials() {
    let c = Config::from_settings(Some("la_live_k".into()), None).unwrap();
    assert_eq!(c.api_url, "https://api.lightarchitects.ai");
    assert_eq!(c.tools_url(), "https://api.lightarchitects.ai/v1/mcp/tools");
    assert_eq!(c.call_url(), "https://api.lightarchitects.ai/v1/mcp/call");
    let auth = c.authorization();
    assert_eq!(auth, "Bearer la_live_k");
    assert_eq!(bearer_token(&auth), Some("la_live_k"));
    let custom = Config::from_settings(Some("k".into()), Some("http://localhost:3800".into())).unwrap();
    assert_eq!(custom.tools_url(), "http://localhost:3800/v1/mcp/tools");
    let missing = Config::from_settings(None, None).unwrap_err();
    assert_eq!(missing, ConfigError::MissingApiKey);
    assert!(missing.message().starts_with("LIGHTARCHITECTS_API_KEY is required"));
}

#[test]
fn select_mode_by_corpus_size() {
    assert_eq!(select_mode(0), RetrievalMode::KeywordDominated);
    assert_eq!(select_mode(24), RetrievalMode::KeywordDominated);
    assert_eq!(select_mode(25), RetrievalMode::Balanced);
    assert_eq!(select_mode(99), RetrievalMode::Balanced);
    assert_eq!(select_mode(100), RetrievalMode::GraphWeighted);
}

#[test]
fn vault_config_from_settings() {
    let c = VaultConfig::from_settings(Some("bolt://localhost:7687".into()), Some("neo4j".into()), Some("pw".into()))
        .unwrap();
    assert_eq!(c.uri, "bolt://localhost:7687");
    let n = VaultConfig::new("u".into(), "n".into(), "p".into());
    assert_eq!(n.password, "p");
    match VaultConfig::from_settings(Some("u".into()), None, Some("p".into())) {
        Err(SoulvaultError::ConfigError(m)) => assert_eq!(m, "SOUL_VAULT_USER not set"),
        other => panic!("unexpected {other:?}"),
    }
    match VaultConfig::from_settings(None, None, None) {
        Err(SoulvaultError::ConfigError(m)) => assert_eq!(m, "SOUL_VAULT_URI not set"),
        other => panic!("unexpected {other:?}"),
    }
    match VaultConfig::from_settings(Some("u".into()), Some("n".into()), None) {
        Err(SoulvaultError::ConfigError(m)) => assert_eq!(m, "SOUL_VAULT_PASSWORD not set"),
        other => panic!("unexpected {other:?}"),
    }
}

#[test]
fn research_report_starts_empty() {
    let r = ResearchReport::new("550e8400-e29b-41d4-a716-446655440000".into(), "https://docs.rs/sqlx/0.7.4/sqlx/".into(), 1_200);
    assert_eq!(r.token_budget_used, 1_200);
    assert!(r.version_constraints.is_empty() && r.verified_snippets.is_empty() && r.rejected_hypotheses.is_empty());
    let s = VerifiedSnippet::new("query!()".into(), "abc123def456".into(), "rust".into());
    assert_eq!(s.language, "rust");
}

#[test]
fn research_report_roundtrip_json() {
    let mut report = ResearchReport::new(
        "550e8400-e29b-41d4-a716-446655440000".into(),
        "https://docs.rs/sqlx/0.7.4/sqlx/".into(),
        1_200,
    );
    report.version_constraints.insert("sqlx".into(), "0.7.4".into());
    report.verified_snippets.push(VerifiedSnippet::new(
        "query!(\"SELECT id FROM users\")".into(),
        "abc123def456".into(),
        "rust".into(),
    ));
    report.rejected_hypotheses.push("sqlx::query_as requires Debug impl".into());
    assert_eq!(report.token_budget_used, 1_200);
    assert_eq!(report.version_constraints.get("sqlx").map(String::as_str), Some("0.7.4"));
    assert_eq!(report.verified_snippets.len(), 1);
    assert_eq!(report.rejected_hypotheses.len(), 1);
}
