//! Critic (negative-bias critic) output types: findings, their lifecycle
//! and the structured review.
use vstd::prelude::*;

verus! {

/// Lifecycle status of a single critic finding.
#[derive(Debug, Clone, PartialEq)]
#[non_exhaustive]
pub enum FindingStatus {
    /// Newly surfaced; no action taken yet.
    Pending,
    /// Fix was applied.
    Actioned,
    /// Deliberately accepted, with the rationale recorded.
    Waived {
        /// Why this finding was accepted without a fix.
        rationale: String,
    },
    /// Detected, but the correction loop did not address it.
    Bypassed,
}

impl Default for FindingStatus {
    /// A finding starts out pending.
    fn default() -> (r: Self)
        ensures
            r is Pending,
    {
        FindingStatus::Pending
    }
}

/// Category of a critic-identified vulnerability or quality issue.
#[derive(Debug, Clone, PartialEq)]
#[non_exhaustive]
pub enum VulnerabilityKind {
    /// Violation of a constraint-manifest hard bound (e.g. `.unwrap()` found).
    ConstraintViolation,
    /// Unclosed socket, un-dropped lock, or unreleased resource.
    ResourceLeak,
    /// Index access on a possibly empty collection without a bounds check.
    NullOrOutOfBounds,
    /// Implicit integer overflow, underflow or wrap.
    ArithmeticOverflow,
    /// Timing-dependent logic that may race.
    RaceCondition,
    /// Category outside the standard rubric.
    Custom(String),
}

/// A single vulnerability or quality issue identified by the critic.
#[derive(Debug, Clone, PartialEq)]
#[non_exhaustive]
pub struct Vulnerability {
    /// Line number where the issue was identified (1-indexed).
    pub line: u32,
    /// Category of the finding.
    pub kind: VulnerabilityKind,
    /// Human-readable description of the issue.
    pub detail: String,
    /// Lifecycle status of this finding.
    pub status: FindingStatus,
    /// Number of times this finding pattern appeared in prior runs.
    pub recurrence: u32,
    /// Pipeline run that produced this finding, once the orchestrator sets it.
    pub pipeline_run_id: Option<String>,
}

impl Vulnerability {
    /// A new pending finding of first occurrence, not yet tied to a run.
    pub fn new(line: u32, kind: VulnerabilityKind, detail: String) -> (r: Self)
        ensures
            r.line == line,
            r.kind == kind,
            r.detail == detail,
            r.status is Pending,
            r.recurrence == 0,
            r.pipeline_run_id is None,
    {
        Vulnerability {
            line,
            kind,
            detail,
            status: FindingStatus::Pending,
            recurrence: 0,
            pipeline_run_id: None,
        }
    }
}

/// A few-shot calibration exemplar for the critic.
#[derive(Debug, Clone)]
#[non_exhaustive]
pub struct CriticExemplar {
    /// Short description of the code scenario evaluated.
    pub input_summary: String,
    /// Expected `approved` verdict.
    pub expected_approved: bool,
    /// Expected findings (empty for approval cases).
    pub expected_vulnerabilities: Vec<Vulnerability>,
    /// Optional label (e.g. `"approval"`, `"rejection"`, `"escalation"`).
    pub label: Option<String>,
}

impl CriticExemplar {
    /// A new exemplar with no expected findings and no label.
    pub fn new(input_summary: String, expected_approved: bool) -> (r: Self)
        ensures
            r.input_summary == input_summary,
            r.expected_approved == expected_approved,
            r.expected_vulnerabilities@ == Seq::<Vulnerability>::empty(),
            r.label is None,
    {
        CriticExemplar {
            input_summary,
            expected_approved,
            expected_vulnerabilities: Vec::new(),
            label: None,
        }
    }
}

/// Structured output of the critic.
#[derive(Debug, Clone, PartialEq)]
#[non_exhaustive]
pub struct CriticReview {
    /// Whether the critic approves the code for the next stage.
    pub approved: bool,
    /// Identified vulnerabilities and quality issues.
    pub vulnerabilities: Vec<Vulnerability>,
    /// Number of reviews rejected in this session.
    pub rejection_count_this_session: u32,
    /// Number of reviews evaluated in this session.
    pub total_reviews_this_session: u32,
    /// Calibration warning, when the rejection rate fell below baseline.
    pub calibration_alert: Option<String>,
}

impl CriticReview {
    /// An approval with no findings and fresh session counters.
    pub fn approved() -> (r: Self)
        ensures
            r.approved,
            r.vulnerabilities@ == Seq::<Vulnerability>::empty(),
            r.rejection_count_this_session == 0,
            r.total_reviews_this_session == 0,
            r.calibration_alert is None,
    {
        CriticReview {
            approved: true,
            vulnerabilities: Vec::new(),
            rejection_count_this_session: 0,
            total_reviews_this_session: 0,
            calibration_alert: None,
        }
    }

    /// A rejection carrying the identified vulnerabilities, with fresh
    /// session counters.
    pub fn rejected(vulnerabilities: Vec<Vulnerability>) -> (r: Self)
        ensures
            !r.approved,
            r.vulnerabilities == vulnerabilities,
            r.rejection_count_this_session == 0,
            r.total_reviews_this_session == 0,
            r.calibration_alert is None,
    {
        CriticReview {
            approved: false,
            vulnerabilities,
            rejection_count_this_session: 0,
            total_reviews_this_session: 0,
            calibration_alert: None,
        }
    }
}

} // verus!
