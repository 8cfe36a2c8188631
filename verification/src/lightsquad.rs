//! The structured delivery protocol: archetypes, gate dimensions, critic
//! reviews, build events, correction-loop evidence, pipeline contracts, plans,
//! tasks and test-driven assertion stubs.
pub mod archetype;
pub mod critic;
pub mod error;
pub mod events;
pub mod evidence;
pub mod gate_dimension;
pub mod pipeline;
pub mod plan;
pub mod task;
pub mod tdd;

pub use archetype::Archetype;
pub use critic::{CriticExemplar, CriticReview, FindingStatus, Vulnerability, VulnerabilityKind};
pub use error::SquadError;
pub use events::{
    AgentHeartbeatEvent, ConductorTickEvent, DecisionEntryDto, EscalationEvent, FixAgentIterationEvent,
    MergeAgentStatusEvent,
};
pub use evidence::EvidenceBundle;
pub use gate_dimension::GateDimension;
pub use pipeline::{
    CompilerDiagnostic, ConstraintManifest, ContextVector, EnvironmentManifest, InterfaceStub,
    SanitizeError, SanitizedTrace,
};
pub use plan::{PlanInput, TaskInput, WaveInput};
pub use task::{AgentStatus, BuildStatus, ContextTier, Task, TaskStatus, Tier, WaveStatus};
pub use tdd::{EmptyAssertionsError, TestAssertion, TestAssertions};
