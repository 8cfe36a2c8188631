//! Errors of the structured delivery protocol.
use vstd::prelude::*;

verus! {

/// Errors of the structured delivery protocol.
#[derive(Debug)]
#[non_exhaustive]
pub enum SquadError {
    /// Plan validation failed.
    ValidationFailed(String),
    /// Task execution failed.
    ExecutionFailed(String),
    /// Gate review returned a rejection.
    GateRejected { dimensions: Vec<String>, reason: String },
    /// Gate review deferred for further investigation.
    GateDeferred { dimensions: Vec<String>, reason: String },
    /// A dependency is not yet complete.
    DependencyNotMet { task_id: String, status: String },
    /// Configuration error.
    Config(String),
    /// Worktree operation failed.
    Worktree(String),
}

} // verus!
