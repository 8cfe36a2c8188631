//! Verified vocabulary and decision logic for agentic delivery pipelines:
//! convergence results, the structured delivery protocol (critic reviews,
//! events, sanitized compiler feedback, plans and tasks), the knowledge-vault
//! configuration, API-key handling and the MCP proxy configuration.
pub mod loops;
pub mod proxy;
pub mod soulvault;
pub mod text;
pub mod json;
pub mod keys;
pub mod lightsquad;
