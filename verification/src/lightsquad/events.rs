//! Build event payloads of the SSE event stream.
use vstd::prelude::*;
use crate::lightsquad::evidence::EvidenceBundle;

verus! {

/// Build heartbeat with queue depth and active workers.
#[derive(Debug, Clone, PartialEq)]
#[non_exhaustive]
pub struct ConductorTickEvent {
    /// Build identifier.
    pub build_id: String,
    /// Monotonically increasing tick sequence number.
    pub tick_seq: u64,
    /// Number of tasks waiting to be dispatched.
    pub queue_depth: u32,
    /// Number of worker slots currently active.
    pub active_workers: u8,
}

impl ConductorTickEvent {
    /// A new conductor tick event.
    pub fn new(build_id: String, tick_seq: u64, queue_depth: u32, active_workers: u8) -> (r: Self)
        ensures
            r.build_id == build_id,
            r.tick_seq == tick_seq,
            r.queue_depth == queue_depth,
            r.active_workers == active_workers,
    {
        ConductorTickEvent { build_id, tick_seq, queue_depth, active_workers }
    }
}

/// Merge agent progress within a wave.
#[derive(Debug, Clone, PartialEq)]
#[non_exhaustive]
pub struct MergeAgentStatusEvent {
    /// Build identifier.
    pub build_id: String,
    /// Zero-based wave index.
    pub wave_index: u32,
    /// Current merge phase (e.g. `"started"`, `"merged"`, `"conflict"`).
    pub phase: String,
    /// SHA of the merged commit, if available.
    pub commit_sha: Option<String>,
}

impl MergeAgentStatusEvent {
    /// A new merge status event without a commit SHA.
    pub fn new(build_id: String, wave_index: u32, phase: String) -> (r: Self)
        ensures
            r.build_id == build_id,
            r.wave_index == wave_index,
            r.phase == phase,
            r.commit_sha is None,
    {
        MergeAgentStatusEvent { build_id, wave_index, phase, commit_sha: None }
    }
}

/// Fix-agent iteration during gate remediation.
#[derive(Debug, Clone, PartialEq)]
#[non_exhaustive]
pub struct FixAgentIterationEvent {
    /// Build identifier.
    pub build_id: String,
    /// Zero-based wave index.
    pub wave_index: u32,
    /// Worker slot number (1-indexed).
    pub worker_slot: u8,
    /// Iteration number (1-indexed).
    pub iteration: u32,
    /// One-line summary of the issue being fixed.
    pub issue_summary: String,
    /// Structured evidence of this correction iteration, when assembled.
    pub evidence: Option<EvidenceBundle>,
}

impl FixAgentIterationEvent {
    /// A new fix iteration event without evidence.
    pub fn new(build_id: String, wave_index: u32, worker_slot: u8, iteration: u32, issue_summary: String) -> (r: Self)
        ensures
            r.build_id == build_id,
            r.wave_index == wave_index,
            r.worker_slot == worker_slot,
            r.iteration == iteration,
            r.issue_summary == issue_summary,
            r.evidence is None,
    {
        FixAgentIterationEvent { build_id, wave_index, worker_slot, iteration, issue_summary, evidence: None }
    }
}

/// Build escalation: a gate or task failed and requires operator action.
#[derive(Debug, Clone, PartialEq)]
#[non_exhaustive]
pub struct EscalationEvent {
    /// Build identifier.
    pub build_id: String,
    /// Zero-based wave index of the escalation.
    pub wave_index: u32,
    /// Worker slot that triggered it (absent for gate-level escalations).
    pub worker_slot: Option<u8>,
    /// Unique call identifier.
    pub call_id: String,
    /// Human-readable reason.
    pub reason: String,
    /// Canonical reference (e.g. `"canon://security-guardrails"`).
    pub canon_ref: Option<String>,
}

impl EscalationEvent {
    /// A new escalation without worker slot or canonical reference.
    pub fn new(build_id: String, wave_index: u32, call_id: String, reason: String) -> (r: Self)
        ensures
            r.build_id == build_id,
            r.wave_index == wave_index,
            r.worker_slot is None,
            r.call_id == call_id,
            r.reason == reason,
            r.canon_ref is None,
    {
        EscalationEvent { build_id, wave_index, worker_slot: None, call_id, reason, canon_ref: None }
    }
}

/// Public view of one entry of a build's HMAC-chained decision log.
#[derive(Debug, Clone, PartialEq)]
#[non_exhaustive]
pub struct DecisionEntryDto {
    /// 0-based line number within the decision log.
    pub line_n: u64,
    /// ISO 8601 timestamp.
    pub timestamp: String,
    /// Decision level (`"L1"` to `"L4"`).
    pub level: String,
    /// Human-readable decision text.
    pub decision: String,
    /// Canonical reference, if any.
    pub canon_ref: Option<String>,
    /// Whether the HMAC chain verified this entry.
    pub hmac_ok: Option<bool>,
}

impl DecisionEntryDto {
    /// A new entry without canonical reference or verification result.
    pub fn new(line_n: u64, timestamp: String, level: String, decision: String) -> (r: Self)
        ensures
            r.line_n == line_n,
            r.timestamp == timestamp,
            r.level == level,
            r.decision == decision,
            r.canon_ref is None,
            r.hmac_ok is None,
    {
        DecisionEntryDto { line_n, timestamp, level, decision, canon_ref: None, hmac_ok: None }
    }
}

/// Liveness signal from an agent during long-running operations.
#[derive(Debug, Clone, PartialEq)]
#[non_exhaustive]
pub struct AgentHeartbeatEvent {
    /// Build identifier.
    pub build_id: String,
    /// Agent identifier within the pool.
    pub agent_id: String,
    /// Current pipeline stage.
    pub stage: String,
    /// Current correction loop iteration, if in a fix cycle.
    pub loop_index: Option<u8>,
}

impl AgentHeartbeatEvent {
    /// A new heartbeat outside any fix cycle.
    pub fn new(build_id: String, agent_id: String, stage: String) -> (r: Self)
        ensures
            r.build_id == build_id,
            r.agent_id == agent_id,
            r.stage == stage,
            r.loop_index is None,
    {
        AgentHeartbeatEvent { build_id, agent_id, stage, loop_index: None }
    }
}

} // verus!
