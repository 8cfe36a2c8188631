//! Knowledge-vault vocabulary: research reports, vault connection settings
//! and adaptive retrieval-mode selection.
use vstd::prelude::*;
use std::collections::HashMap;

verus! {

/// A code snippet verified against a canonical source.
#[derive(Debug, Clone)]
#[non_exhaustive]
pub struct VerifiedSnippet {
    /// The verified code snippet.
    pub code: String,
    /// SHA-256 hex digest of the source that produced the snippet.
    pub source_checksum: String,
    /// Programming language of the snippet.
    pub language: String,
}

impl VerifiedSnippet {
    /// A new verified snippet.
    pub fn new(code: String, source_checksum: String, language: String) -> (r: Self)
        ensures
            r.code == code,
            r.source_checksum == source_checksum,
            r.language == language,
    {
        VerifiedSnippet { code, source_checksum, language }
    }
}

/// Structured output of the researcher agent.
#[derive(Debug, Clone)]
#[non_exhaustive]
pub struct ResearchReport {
    /// Pipeline run that produced this report.
    pub pipeline_run_id: String,
    /// Canonical source queried.
    pub source_uri: String,
    /// Locked crate versions relevant to the research (`name` → `"x.y.z"`).
    pub version_constraints: HashMap<String, String>,
    /// Snippets verified against the canonical source.
    pub verified_snippets: Vec<VerifiedSnippet>,
    /// Hypotheses considered and rejected.
    pub rejected_hypotheses: Vec<String>,
    /// Approximate token count consumed producing this report.
    pub token_budget_used: u32,
}

impl ResearchReport {
    /// A report with the required fields and nothing else.
    pub fn new(pipeline_run_id: String, source_uri: String, token_budget_used: u32) -> (r: Self)
        ensures
            r.pipeline_run_id == pipeline_run_id,
            r.source_uri == source_uri,
            r.version_constraints@ == Map::<String, String>::empty(),
            r.verified_snippets@ == Seq::<VerifiedSnippet>::empty(),
            r.rejected_hypotheses@ == Seq::<String>::empty(),
            r.token_budget_used == token_budget_used,
    {
        ResearchReport {
            pipeline_run_id,
            source_uri,
            version_constraints: HashMap::new(),
            verified_snippets: Vec::new(),
            rejected_hypotheses: Vec::new(),
            token_budget_used,
        }
    }
}

/// Retrieval mode, chosen by corpus size.
#[derive(Debug, Clone, Copy, PartialEq, Eq)]
pub enum RetrievalMode {
    /// Small corpus: keyword signal dominates.
    KeywordDominated,
    /// Medium corpus: signals balanced.
    Balanced,
    /// Large corpus: graph signal weighted up.
    GraphWeighted,
}

/// The mode for a helix of `step_count` steps: keyword-dominated below 25,
/// balanced from 25 to 99, graph-weighted from 100.
pub open spec fn mode_for(step_count: nat) -> RetrievalMode {
    if step_count < 25 {
        RetrievalMode::KeywordDominated
    } else if step_count < 100 {
        RetrievalMode::Balanced
    } else {
        RetrievalMode::GraphWeighted
    }
}

/// Selects the adaptive retrieval mode from the corpus size.
pub fn select_mode(step_count: usize) -> (r: RetrievalMode)
    ensures
        r == mode_for(step_count as nat),
{
    if step_count <= 24 {
        RetrievalMode::KeywordDominated
    } else if step_count <= 99 {
        RetrievalMode::Balanced
    } else {
        RetrievalMode::GraphWeighted
    }
}

/// How far a mode leans on the graph signal.
pub open spec fn graph_reliance(m: RetrievalMode) -> int {
    match m {
        RetrievalMode::KeywordDominated => 0,
        RetrievalMode::Balanced => 1,
        RetrievalMode::GraphWeighted => 2,
    }
}

/// A larger corpus never selects a mode that leans less on the graph.
pub proof fn lemma_select_mode_monotone(a: nat, b: nat)
    requires
        a <= b,
    ensures
        graph_reliance(mode_for(a)) <= graph_reliance(mode_for(b)),
{
}

/// Errors of the knowledge vault.
#[derive(Debug)]
pub enum SoulvaultError {
    /// A required setting is missing.
    ConfigError(String),
    /// Connecting to the vault failed.
    ConnectionFailed(String),
    /// The backend reported an error.
    Backend(String),
    /// A query failed.
    QueryFailed(String),
}

/// Connection settings of a vault.
#[derive(Debug, Clone)]
pub struct VaultConfig {
    /// Bolt URI, e.g. `"bolt://localhost:7687"`.
    pub uri: String,
    /// User name.
    pub user: String,
    /// Password.
    pub password: String,
}

impl VaultConfig {
    /// A configuration of explicit values.
    pub fn new(uri: String, user: String, password: String) -> (r: Self)
        ensures
            r.uri == uri,
            r.user == user,
            r.password == password,
    {
        VaultConfig { uri, user, password }
    }

    /// The configuration of the three settings, all required; the first
    /// missing one (URI, then user, then password) is named in the error.
    pub fn from_settings(uri: Option<String>, user: Option<String>, password: Option<String>) -> (r: Result<
        Self,
        SoulvaultError,
    >)
        ensures
            match (uri, user, password) {
                (None, _, _) => r matches Err(SoulvaultError::ConfigError(m)) && m@ == "SOUL_VAULT_URI not set"@,
                (Some(_), None, _) => r matches Err(SoulvaultError::ConfigError(m)) && m@
                    == "SOUL_VAULT_USER not set"@,
                (Some(_), Some(_), None) => r matches Err(SoulvaultError::ConfigError(m)) && m@
                    == "SOUL_VAULT_PASSWORD not set"@,
                (Some(a), Some(b), Some(c)) => r matches Ok(v) && v.uri == a && v.user == b
                    && v.password == c,
            },
    {
        let uri = match uri {
            Some(u) => u,
            None => return Err(SoulvaultError::ConfigError("SOUL_VAULT_URI not set".to_owned())),
        };
        let user = match user {
            Some(u) => u,
            None => return Err(SoulvaultError::ConfigError("SOUL_VAULT_USER not set".to_owned())),
        };
        let password = match password {
            Some(p) => p,
            None => return Err(SoulvaultError::ConfigError("SOUL_VAULT_PASSWORD not set".to_owned())),
        };
        Ok(VaultConfig { uri, user, password })
    }
}

} // verus!
