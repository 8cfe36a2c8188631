//! Correction-loop evidence bundle: the structured record handed to a fix
//! agent for one correction iteration.
use vstd::prelude::*;
use crate::lightsquad::critic::Vulnerability;
use crate::lightsquad::pipeline::CompilerDiagnostic;

verus! {

/// Structured evidence for one fix-agent correction iteration.
#[derive(Debug, Clone, PartialEq)]
#[non_exhaustive]
pub struct EvidenceBundle {
    /// Name of the failing test.
    pub test_name: String,
    /// Text of the assertion that failed.
    pub assertion_text: String,
    /// Zero-indexed correction iteration.
    pub loop_index: u8,
    /// Allowlist-parsed compiler and test-runner failures.
    pub cargo_test_failures: Vec<CompilerDiagnostic>,
    /// Trace span of this iteration, when tracing is wired.
    pub ayin_span_id: Option<String>,
    /// Paths to supporting artifacts.
    pub artifact_paths: Vec<String>,
    /// Last SSE frames of the test session.
    pub last_sse_frames: Vec<String>,
    /// Critic findings of the same iteration.
    pub critic_vulnerabilities: Vec<Vulnerability>,
}

impl EvidenceBundle {
    /// A minimal bundle: the required fields, everything else empty.
    pub fn new(test_name: String, assertion_text: String, loop_index: u8) -> (r: Self)
        ensures
            r.test_name == test_name,
            r.assertion_text == assertion_text,
            r.loop_index == loop_index,
            r.cargo_test_failures@ == Seq::<CompilerDiagnostic>::empty(),
            r.ayin_span_id is None,
            r.artifact_paths@ == Seq::<String>::empty(),
            r.last_sse_frames@ == Seq::<String>::empty(),
            r.critic_vulnerabilities@ == Seq::<Vulnerability>::empty(),
    {
        EvidenceBundle {
            test_name,
            assertion_text,
            loop_index,
            cargo_test_failures: Vec::new(),
            ayin_span_id: None,
            artifact_paths: Vec::new(),
            last_sse_frames: Vec::new(),
            critic_vulnerabilities: Vec::new(),
        }
    }
}

} // verus!
