//! Quality gate dimensions of the structured delivery protocol.
use vstd::prelude::*;

verus! {

/// Quality gate dimension: the ten canonical dimensions plus `Custom` for
/// domain-specific extensions.
#[derive(Debug, Clone, PartialEq, Eq, Hash)]
#[non_exhaustive]
pub enum GateDimension {
    /// [A] Architecture: system design, API contracts, complexity.
    Architecture,
    /// [S] Security: threat surface, vulnerabilities, supply chain.
    Security,
    /// [Q] Quality: standards, lints, formatting, complexity limits.
    Quality,
    /// [C] Canon: standards compliance, cross-reference consistency.
    Canon,
    /// [O] Operations: deploy pipeline, CI/CD, rollback.
    Operations,
    /// [P] Performance: latency, throughput, resource bounds.
    Performance,
    /// [K] Knowledge: documentation, citations, prior decisions.
    Knowledge,
    /// [D] Documentation: rustdoc, examples, in-code docs.
    Documentation,
    /// [T] Testing: test pyramid, coverage, regression.
    Testing,
    /// [R] Research: prior art, dependency audit, risk scoring.
    Research,
    /// Custom dimension for domain-specific quality gates.
    Custom(String),
}

/// The one-letter code of a canonical dimension; `"?"` for a custom one.
pub open spec fn dimension_code(d: GateDimension) -> Seq<char> {
    match d {
        GateDimension::Architecture => "A"@,
        GateDimension::Security => "S"@,
        GateDimension::Quality => "Q"@,
        GateDimension::Canon => "C"@,
        GateDimension::Operations => "O"@,
        GateDimension::Performance => "P"@,
        GateDimension::Knowledge => "K"@,
        GateDimension::Documentation => "D"@,
        GateDimension::Testing => "T"@,
        GateDimension::Research => "R"@,
        GateDimension::Custom(_) => "?"@,
    }
}

impl GateDimension {
    /// Short code for this dimension (e.g. `"A"`, `"S"`, `"Q"`).
    pub fn code(&self) -> (r: &str)
        ensures
            r@ == dimension_code(*self),
    {
        match self {
            GateDimension::Architecture => "A",
            GateDimension::Security => "S",
            GateDimension::Quality => "Q",
            GateDimension::Canon => "C",
            GateDimension::Operations => "O",
            GateDimension::Performance => "P",
            GateDimension::Knowledge => "K",
            GateDimension::Documentation => "D",
            GateDimension::Testing => "T",
            GateDimension::Research => "R",
            GateDimension::Custom(_) => "?",
        }
    }
}

/// The codes of the canonical dimensions are single letters that tell the
/// dimensions apart: two canonical dimensions share a code only when they
/// are the same dimension.
pub proof fn lemma_dimension_codes_distinct(a: GateDimension, b: GateDimension)
    requires
        !(a is Custom),
        !(b is Custom),
    ensures
        dimension_code(a).len() == 1,
        dimension_code(a) == dimension_code(b) ==> a == b,
{
    reveal_strlit("A");
    reveal_strlit("S");
    reveal_strlit("Q");
    reveal_strlit("C");
    reveal_strlit("O");
    reveal_strlit("P");
    reveal_strlit("K");
    reveal_strlit("D");
    reveal_strlit("T");
    reveal_strlit("R");
    if dimension_code(a) == dimension_code(b) {
        assert(dimension_code(a)[0] == dimension_code(b)[0]);
    }
}

} // verus!
