use larc::json::{JsonNumber, JsonValue};
use larc::lightsquad::critic::{CriticExemplar, CriticReview, FindingStatus, Vulnerability, VulnerabilityKind};
use larc::lightsquad::events::{
    AgentHeartbeatEvent, ConductorTickEvent, DecisionEntryDto, EscalationEvent, FixAgentIterationEvent,
    MergeAgentStatusEvent,
};
use larc::lightsquad::evidence::EvidenceBundle;
use larc::lightsquad::gate_dimension::GateDimension;
use larc::lightsquad::pipeline::{
    cargo_output_lines, parse_compiler_message, parse_test_failure, sanitize_text, strip_ansi,
    truncate_to_bytes, CompilerDiagnostic, ConstraintManifest, ContextVector, EnvironmentManifest,
    InterfaceStub, SanitizeError, SanitizedTrace,
};
use larc::lightsquad::plan::{default_concurrency_safe, PlanInput, TaskInput, WaveInput};
use larc::lightsquad::task::{ContextTier, Task, TaskStatus, Tier};
use larc::lightsquad::tdd::{EmptyAssertionsError, TestAssertion, TestAssertions};
use larc::lightsquad::SquadError;

fn s(x: &str) -> JsonValue {
    JsonValue::Str(x.to_owned())
}

fn obj(fields: Vec<(&str, JsonValue)>) -> JsonValue {
    JsonValue::Object(fields.into_iter().map(|(k, v)| (k.to_owned(), v)).collect())
}

fn num(n: u64) -> JsonValue {
    JsonValue::Number(JsonNumber::Unsigned(n))
}

// ── Reviews, manifests, assertions and tiers ────────────────────────────────

#[test]
fn critic_review_rejection_has_finding() {
    let v = Vulnerability::new(
        24,
        VulnerabilityKind::NullOrOutOfBounds,
        "Direct `[0]` index access without `.is_empty()` guard".into(),
    );
    let review = CriticReview::rejected(vec![v]);
    assert!(!review.approved);
    assert_eq!(review.vulnerabilities.len(), 1);
    assert_eq!(review.vulnerabilities[0].line, 24);
}

#[test]
fn constraint_manifest_rust_canon_has_expected_flags() {
    let m = ConstraintManifest::rust_canon();
    assert!(m.no_unwrap);
    assert!(m.no_expect);
    assert!(m.send_sync_required);
    assert!(m.no_unlisted_deps);
    assert!(!m.no_heap_alloc_inner_loops);
    assert!(m.custom.is_empty());
}

#[test]
fn constraint_manifest_default_off_all_false() {
    let m = ConstraintManifest::default_off();
    assert!(!m.no_unwrap);
    assert!(!m.no_expect);
    assert!(!m.send_sync_required);
    assert!(!m.no_unlisted_deps);
    assert!(!m.no_heap_alloc_inner_loops);
}

#[test]
fn test_assertions_new_rejects_empty() {
    assert_eq!(TestAssertions::new(vec![]), Err(EmptyAssertionsError));
}

#[test]
fn test_assertions_new_accepts_nonempty() {
    let ta = TestAssertion::new("fetch_user returns Ok".into(), "test_fetch_user_ok".into());
    let assertions = TestAssertions::new(vec![ta.clone()]).unwrap();
    assert_eq!(assertions.len(), 1);
    assert!(!assertions.is_empty());
    assert_eq!(assertions.as_slice()[0], ta);
}

#[test]
fn context_tier_string_to_u8_round_trips() {
    assert_eq!(ContextTier::tier_from_string("T1"), Some(0));
    assert_eq!(ContextTier::tier_from_string("T2"), Some(1));
    assert_eq!(ContextTier::tier_from_string("T3"), Some(2));
    assert_eq!(ContextTier::tier_from_string("T0"), None);
    assert_eq!(ContextTier::tier_from_string("unknown"), None);

    assert_eq!(ContextTier::tier_to_string(0), Some("T1"));
    assert_eq!(ContextTier::tier_to_string(1), Some("T2"));
    assert_eq!(ContextTier::tier_to_string(2), Some("T3"));
    assert_eq!(ContextTier::tier_to_string(3), None);
}

// ── Constructors ────────────────────────────────────────────────────────────

#[test]
fn vulnerability_new_is_pending_first_occurrence() {
    let v = Vulnerability::new(5, VulnerabilityKind::ResourceLeak, "socket".into());
    assert_eq!(v.status, FindingStatus::Pending);
    assert_eq!(v.recurrence, 0);
    assert_eq!(v.pipeline_run_id, None);
    assert_eq!(FindingStatus::default(), FindingStatus::Pending);
}

#[test]
fn critic_review_approved_has_no_findings() {
    let r = CriticReview::approved();
    assert!(r.approved);
    assert!(r.vulnerabilities.is_empty());
    assert_eq!(r.total_reviews_this_session, 0);
    assert_eq!(r.calibration_alert, None);
    let e = CriticExemplar::new("safe code".into(), true);
    assert!(e.expected_approved);
    assert!(e.expected_vulnerabilities.is_empty());
    assert_eq!(e.label, None);
}

#[test]
fn event_constructors_leave_optional_fields_empty() {
    let t = ConductorTickEvent::new("b1".into(), 1, 0, 0);
    assert_eq!((t.tick_seq, t.queue_depth, t.active_workers), (1, 0, 0));
    let m = MergeAgentStatusEvent::new("b".into(), 2, "merged".into());
    assert_eq!(m.commit_sha, None);
    assert_eq!(m.wave_index, 2);
    let f = FixAgentIterationEvent::new("b".into(), 0, 3, 2, "clippy".into());
    assert_eq!((f.worker_slot, f.iteration), (3, 2));
    assert!(f.evidence.is_none());
    let e = EscalationEvent::new("b1".into(), 0, "call-42".into(), "test".into());
    assert_eq!(e.worker_slot, None);
    assert_eq!(e.canon_ref, None);
    assert_eq!(e.call_id, "call-42");
    let d = DecisionEntryDto::new(1, "2026-05-29T10:01:00Z".into(), "L1".into(), "BLOCKED".into());
    assert_eq!(d.hmac_ok, None);
    assert_eq!(d.canon_ref, None);
    let h = AgentHeartbeatEvent::new("b".into(), "researcher-0".into(), "research".into());
    assert_eq!(h.loop_index, None);
    let ev = EvidenceBundle::new("t".into(), "a".into(), 2);
    assert_eq!(ev.loop_index, 2);
    assert!(ev.cargo_test_failures.is_empty() && ev.artifact_paths.is_empty());
    assert!(ev.ayin_span_id.is_none() && ev.critic_vulnerabilities.is_empty());
}

#[test]
fn context_vector_keeps_its_layers() {
    let cv = ContextVector::new(
        EnvironmentManifest::new("Rust 1.87.0".into(), "2024".into()),
        vec![InterfaceStub::new("src/lib.rs".into(), "pub fn foo();".into())],
        ConstraintManifest::rust_canon(),
    );
    assert_eq!(cv.env.runtime, "Rust 1.87.0");
    assert!(cv.env.strict_lockfile.is_empty());
    assert_eq!(cv.stubs.len(), 1);
    assert!(cv.constraints.no_unwrap);
}

#[test]
fn gate_dimension_codes() {
    assert_eq!(GateDimension::Architecture.code(), "A");
    assert_eq!(GateDimension::Security.code(), "S");
    assert_eq!(GateDimension::Research.code(), "R");
    assert_eq!(GateDimension::Custom("bespoke".into()).code(), "?");
}

// ── Sanitizing ──────────────────────────────────────────────────────────────

#[test]
fn strip_ansi_removes_control_sequences() {
    assert_eq!(strip_ansi("\x1b[31merror\x1b[0m: x"), "error: x");
    assert_eq!(strip_ansi("a\x1bb"), "a\x1bb");
    assert_eq!(strip_ansi("unterminated \x1b[12"), "unterminated ");
    assert_eq!(strip_ansi(""), "");
}

#[test]
fn truncate_keeps_whole_characters() {
    assert_eq!(truncate_to_bytes("hello", 10), "hello");
    assert_eq!(truncate_to_bytes("hello", 3), "hel");
    // 'é' takes two bytes: cutting at 2 bytes keeps only "a".
    assert_eq!(truncate_to_bytes("aé", 2), "a");
    assert_eq!(truncate_to_bytes("aé", 3), "aé");
    let long = "x".repeat(600);
    assert_eq!(sanitize_text(&long).len(), 512);
}

#[test]
fn cargo_output_lines_frames_nonblank_lines() {
    assert_eq!(cargo_output_lines("  \n\t "), Err(SanitizeError::EmptyInput));
    assert_eq!(cargo_output_lines(""), Err(SanitizeError::EmptyInput));
    let lines = cargo_output_lines("  {\"a\":1}  \r\n\n{\"b\":2}").unwrap();
    assert_eq!(lines, vec!["{\"a\":1}".to_owned(), "{\"b\":2}".to_owned()]);
}

fn compiler_message(primary_file: &str, line: u64) -> JsonValue {
    obj(vec![
        ("reason", s("compiler-message")),
        (
            "message",
            obj(vec![
                ("code", obj(vec![("code", s("E0308"))])),
                ("message", s("\x1b[1mmismatched types\x1b[0m")),
                (
                    "spans",
                    JsonValue::Array(vec![
                        obj(vec![
                            ("file_name", s("src/other.rs")),
                            ("line_start", num(3)),
                            ("is_primary", JsonValue::Bool(false)),
                        ]),
                        obj(vec![
                            ("file_name", s(primary_file)),
                            ("line_start", num(line)),
                            ("is_primary", JsonValue::Bool(true)),
                        ]),
                    ]),
                ),
            ]),
        ),
    ])
}

#[test]
fn compiler_message_uses_primary_span() {
    let d = parse_compiler_message(&compiler_message("src/main.rs", 42)).unwrap();
    assert_eq!(
        d,
        CompilerDiagnostic::with_error_code("src/main.rs".into(), 42, "E0308".into(), "mismatched types".into())
    );
    assert_eq!(parse_compiler_message(&compiler_message("", 42)), None);
    assert_eq!(parse_compiler_message(&compiler_message("src/main.rs", 0)), None);
    assert_eq!(parse_compiler_message(&obj(vec![("reason", s("build-finished"))])), None);
}

#[test]
fn test_failure_uses_stdout_or_name() {
    let failed = obj(vec![
        ("type", s("test")),
        ("event", s("failed")),
        ("name", s("tests::it_works")),
        ("stdout", s("assertion failed")),
    ]);
    let d = parse_test_failure(&failed).unwrap();
    assert_eq!(d, CompilerDiagnostic::new("test::tests::it_works".into(), 0, "assertion failed".into()));
    let silent = obj(vec![("type", s("test")), ("event", s("failed")), ("name", s("t"))]);
    assert_eq!(parse_test_failure(&silent).unwrap().message, "t failed");
    let ok = obj(vec![("type", s("test")), ("event", s("ok")), ("name", s("t"))]);
    assert_eq!(parse_test_failure(&ok), None);
}

#[test]
fn trace_from_parsed_lines_keeps_order() {
    let lines = vec![
        Some(compiler_message("src/a.rs", 1)),
        None,
        Some(obj(vec![("reason", s("build-finished"))])),
        Some(obj(vec![("type", s("test")), ("event", s("failed")), ("name", s("t"))])),
    ];
    let t = SanitizedTrace::from_parsed_lines(&lines, 1);
    assert_eq!(t.loop_index, 1);
    assert_eq!(t.diagnostics.len(), 2);
    assert_eq!(t.diagnostics[0].file, "src/a.rs");
    assert_eq!(t.diagnostics[1].file, "test::t");
    assert_eq!(SanitizedTrace::new(3).diagnostics.len(), 0);
    let w = SanitizedTrace::with_diagnostics(2, t.diagnostics.clone());
    assert_eq!(w.diagnostics, t.diagnostics);
}

// ── Plans and tasks ─────────────────────────────────────────────────────────

fn task(id: &str, deps: &[&str]) -> TaskInput {
    let mut t = TaskInput::new(id.into(), "do it".into());
    t.depends_on = deps.iter().map(|d| d.to_string()).collect();
    t
}

fn message(r: Result<(), SquadError>) -> String {
    match r {
        Err(SquadError::ValidationFailed(m)) => m,
        other => panic!("unexpected {other:?}"),
    }
}

#[test]
fn plan_validation_outcomes() {
    let ok = PlanInput::new(
        "p".into(),
        Tier::Small,
        vec![
            WaveInput::new("w1".into(), vec![task("a", &[]), task("b", &["a"])]),
            WaveInput::new("w2".into(), vec![task("c", &["a", "b"])]),
        ],
    );
    assert!(ok.validate().is_ok());
    let empty = PlanInput::new("p".into(), Tier::Medium, vec![]);
    assert_eq!(message(empty.validate()), "plan must have at least one wave");
    let dup = PlanInput::new(
        "p".into(),
        Tier::Large,
        vec![
            WaveInput::new("w1".into(), vec![task("a", &[]), task("b", &[])]),
            WaveInput::new("w2".into(), vec![task("a", &[]), task("b", &[]), task("a", &[])]),
        ],
    );
    assert_eq!(message(dup.validate()), "duplicate task IDs: a, b, a");
    let unknown = PlanInput::new(
        "p".into(),
        Tier::Small,
        vec![WaveInput::new("w".into(), vec![task("a", &["x"]), task("b", &["y"])])],
    );
    assert_eq!(message(unknown.validate()), "task 'a' depends on unknown task 'x'");
    assert!(!default_concurrency_safe());
}

#[test]
fn task_can_run_needs_complete_dependencies() {
    let mut t = Task::new("c".into(), "br".into(), "p".into(), TaskStatus::Pending);
    t.depends_on = vec!["a".into(), "b".into()];
    let a = Task::new("a".into(), "br".into(), "p".into(), TaskStatus::Complete);
    let b_running = Task::new("b".into(), "br".into(), "p".into(), TaskStatus::InProgress);
    let b_done = Task::new("b".into(), "br".into(), "p".into(), TaskStatus::Complete);
    assert!(!t.can_run(&[a.clone(), b_running.clone()]));
    assert!(t.can_run(&[a.clone(), b_done.clone()]));
    assert!(!t.can_run(&[a.clone()]));
    // The first task with an id decides.
    assert!(!t.can_run(&[a.clone(), b_running, b_done.clone()]));
    let started = Task::new("d".into(), "br".into(), "p".into(), TaskStatus::InProgress);
    assert!(!started.can_run(&[]));
    let free = Task::new("e".into(), "br".into(), "p".into(), TaskStatus::Pending);
    assert!(free.can_run(&[]));
}

#[test]
fn context_tier_lower_case_and_new() {
    assert_eq!(ContextTier::tier_from_string("t2"), Some(1));
    let c = ContextTier::new(1, "project".into(), vec!["README.md".into()], 10_000);
    assert_eq!(c.tier, 1);
    assert_eq!(c.token_estimate, 10_000);
}

#[test]
fn test_failure_fallback_is_cut_to_the_limit() {
    let long_name = "n".repeat(600);
    let silent = obj(vec![("type", s("test")), ("event", s("failed")), ("name", s(&long_name))]);
    let d = parse_test_failure(&silent).unwrap();
    assert_eq!(d.message.len(), 512);
    assert_eq!(d.message, "n".repeat(512));
    assert_eq!(d.file, format!("test::{long_name}"));
    let escaped = obj(vec![("type", s("test")), ("event", s("failed")), ("name", s("\u{1b}[31mt\u{1b}[0m"))]);
    assert_eq!(parse_test_failure(&escaped).unwrap().message, "t failed");
}

#[test]
fn every_parsed_message_fits_the_limit() {
    let long = "é".repeat(400);
    let lines = vec![
        Some(obj(vec![("type", s("test")), ("event", s("failed")), ("name", s(&long))])),
        Some(obj(vec![("type", s("test")), ("event", s("failed")), ("name", s("t")), ("stdout", s(&long))])),
    ];
    let t = SanitizedTrace::from_parsed_lines(&lines, 0);
    assert_eq!(t.diagnostics.len(), 2);
    for d in &t.diagnostics {
        assert!(d.message.len() <= 512);
    }
    assert_eq!(t.diagnostics[1].message, "é".repeat(256));
}

#[test]
fn joined_output_frames_both_parts() {
    let a = "  {\"a\":1}\n\n x ";
    let b = "\t{\"b\":2}\ny";
    let joined = format!("{a}\n{b}");
    let mut expected = cargo_output_lines(a).unwrap();
    expected.extend(cargo_output_lines(b).unwrap());
    assert_eq!(cargo_output_lines(&joined).unwrap(), expected);
    let first = vec![Some(compiler_message("src/a.rs", 1))];
    let second = vec![Some(compiler_message("src/b.rs", 2)), None];
    let both = vec![Some(compiler_message("src/a.rs", 1)), Some(compiler_message("src/b.rs", 2)), None];
    let mut diags = SanitizedTrace::from_parsed_lines(&first, 0).diagnostics;
    diags.extend(SanitizedTrace::from_parsed_lines(&second, 0).diagnostics);
    assert_eq!(SanitizedTrace::from_parsed_lines(&both, 0).diagnostics, diags);
}

#[test]
fn critic_review_approval_roundtrip() {
    let review = CriticReview::approved();
    assert!(review.approved);
    assert!(review.vulnerabilities.is_empty());
    assert_eq!(review.rejection_count_this_session, 0);
}

#[test]
fn finding_status_default_is_pending() {
    let v = Vulnerability::new(1, VulnerabilityKind::ConstraintViolation, "unwrap".into());
    assert_eq!(v.status, FindingStatus::Pending);
}

#[test]
fn finding_status_waived_carries_rationale() {
    let mut v = Vulnerability::new(5, VulnerabilityKind::ResourceLeak, "socket".into());
    v.status = FindingStatus::Waived { rationale: "test-only code path".into() };
    assert!(matches!(&v.status, FindingStatus::Waived { rationale } if rationale == "test-only code path"));
}

#[test]
fn sanitized_trace_loop_index_preserved() {
    let diag = CompilerDiagnostic::with_error_code("src/main.rs".into(), 42, "E0308".into(), "mismatched types".into());
    let trace = SanitizedTrace::with_diagnostics(1, vec![diag.clone()]);
    assert_eq!(trace.loop_index, 1);
    assert_eq!(trace.diagnostics[0].error_code.as_deref(), Some("E0308"));
    assert_eq!(trace.diagnostics[0], diag);
}

#[test]
fn evidence_bundle_roundtrip_json() {
    let mut bundle = EvidenceBundle::new("test_fetch_user".into(), "assert_eq!(result.id, 42)".into(), 0);
    bundle.cargo_test_failures.push(CompilerDiagnostic::with_error_code(
        "src/db.rs".into(),
        18,
        "E0277".into(),
        "the trait `Send` is not implemented".into(),
    ));
    bundle.ayin_span_id = Some("550e8400-e29b-41d4-a716-446655440000".into());
    assert_eq!(bundle.loop_index, 0);
    assert_eq!(bundle.cargo_test_failures.len(), 1);
    assert_eq!(bundle.ayin_span_id.as_deref(), Some("550e8400-e29b-41d4-a716-446655440000"));
}

#[test]
fn from_cargo_json_parses_compiler_and_test_lines() {
    let lines = [
        r#"{"reason":"compiler-message","message":{"code":{"code":"E0308"},"message":"mismatched types","spans":[{"file_name":"src/main.rs","line_start":42,"is_primary":true}]}}"#,
        "not json at all",
        "",
        r#"  {"type":"test","event":"failed","name":"tests::it_works","stdout":"\u001b[31mboom\u001b[0m"}  "#,
        r#"{"reason":"build-finished","success":false}"#,
    ];
    let input = lines.join("\n");
    let input = input.as_str();
    let t = SanitizedTrace::from_cargo_json(input, 2).unwrap();
    assert_eq!(t.loop_index, 2);
    assert_eq!(
        t.diagnostics,
        vec![
            CompilerDiagnostic::with_error_code("src/main.rs".into(), 42, "E0308".into(), "mismatched types".into()),
            CompilerDiagnostic::new("test::tests::it_works".into(), 0, "boom".into()),
        ]
    );
    assert_eq!(SanitizedTrace::from_cargo_json(" \n\t ", 0), Err(SanitizeError::EmptyInput));
    assert_eq!(SanitizedTrace::from_cargo_json("{{{", 0).unwrap().diagnostics.len(), 0);
}

#[test]
fn from_cargo_json_of_joined_output_concatenates() {
    let a = r#"{"type":"test","event":"failed","name":"a"}"#;
    let b = r#"{"reason":"compiler-message","message":{"message":"m","spans":[{"file_name":"f.rs","line_start":3}]}}"#;
    let joined = format!("{a}\n{b}");
    let mut expected = SanitizedTrace::from_cargo_json(a, 0).unwrap().diagnostics;
    expected.extend(SanitizedTrace::from_cargo_json(b, 0).unwrap().diagnostics);
    assert_eq!(expected.len(), 2);
    assert_eq!(SanitizedTrace::from_cargo_json(&joined, 0).unwrap().diagnostics, expected);
}
