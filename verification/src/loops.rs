//! Convergence results for agentic loops and the strategy traits that decide
//! when a loop halts, continues or is blocked.
use vstd::prelude::*;

verus! {

/// Outcome of a single convergence check.
#[derive(Debug, Clone, PartialEq)]
pub enum ConvergenceResult {
    /// Loop should continue: threshold not yet reached.
    Continue,
    /// Loop has converged: enough evidence to halt or advance.
    Converged,
    /// Loop cannot converge on this path: caller should phase back or abort.
    Blocked { reason: String },
}

impl ConvergenceResult {
    /// Returns `true` exactly when the result is `Converged`.
    pub fn is_converged(&self) -> (r: bool)
        ensures
            r == (*self is Converged),
    {
        match self {
            ConvergenceResult::Converged => true,
            _ => false,
        }
    }

    /// Returns `true` exactly when the result is `Blocked`.
    pub fn is_blocked(&self) -> (r: bool)
        ensures
            r == (*self is Blocked),
    {
        match self {
            ConvergenceResult::Blocked { .. } => true,
            _ => false,
        }
    }
}

/// No result is both converged and blocked.
pub proof fn lemma_converged_and_blocked_exclusive(r: ConvergenceResult)
    ensures
        !(r is Converged && r is Blocked),
{
}

/// Gate-by-gate convergence with phase-back capability.
///
/// Each gate must pass before the next can be evaluated. A failing gate
/// returns `Blocked` with the owning gate label, so that the caller can phase
/// back to the right remediation point.
pub trait ConvergenceGate: Send + Sync {
    /// Evaluate a single gate pass.
    fn evaluate_gate(&self, gate_label: &str, passed: bool) -> ConvergenceResult;
}

/// Convergence via N independent verification rounds.
///
/// The loop converges when `required_passes` rounds all succeed, or when a
/// majority threshold is reached under a policy of the implementor.
pub trait NPassVerifier: Send + Sync {
    /// Record the result of pass `pass_index` (0-based) and check whether
    /// convergence is reached after `required_passes` passes.
    fn record_pass(&self, pass_index: u32, passed: bool, required_passes: u32) -> ConvergenceResult;
}

/// Convergence via bounded queue exhaustion.
///
/// The loop converges when the processing queue is empty or falls below a
/// residual threshold chosen by the implementor.
pub trait QueueDrain: Send + Sync {
    /// `remaining` is the number of unprocessed items, `initial_size` the
    /// queue size at the start of the drain loop.
    fn check_drained(&self, remaining: usize, initial_size: usize) -> ConvergenceResult;
}

/// Convergence via interval polling with a deadline.
///
/// A watched condition is polled on a fixed interval; convergence occurs when
/// the condition becomes true within the deadline.
pub trait IntervalWatch: Send + Sync {
    /// `elapsed_ms` is the time since the watch began, `deadline_ms` the time
    /// after which the watch expires.
    fn check_condition(&self, elapsed_ms: u64, deadline_ms: u64) -> ConvergenceResult;
}

} // verus!
