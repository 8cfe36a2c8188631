use larc::loops::ConvergenceResult;

/// A blast-score check as a caller would write it: converged at or below
/// the threshold, blocked above it.
struct ScoreCheck;

impl ScoreCheck {
    fn check(&self, score: f64, threshold: f64) -> ConvergenceResult {
        if score <= threshold {
            ConvergenceResult::Converged
        } else {
            ConvergenceResult::Blocked {
                reason: format!("score {score:.2} exceeds threshold {threshold:.2}"),
            }
        }
    }
}

#[test]
fn blast_score_converges_at_or_below_threshold() {
    let b = ScoreCheck;
    assert_eq!(b.check(0.5, 0.5), ConvergenceResult::Converged);
    assert_eq!(b.check(0.4, 0.5), ConvergenceResult::Converged);
}

#[test]
fn blast_score_blocks_above_threshold() {
    let b = ScoreCheck;
    assert!(matches!(b.check(0.9, 0.5), ConvergenceResult::Blocked { .. }));
}

#[test]
fn convergence_result_helpers() {
    assert!(ConvergenceResult::Converged.is_converged());
    assert!(!ConvergenceResult::Continue.is_converged());
    assert!(ConvergenceResult::Blocked { reason: "x".into() }.is_blocked());
    assert!(!ConvergenceResult::Converged.is_blocked());
}

#[test]
fn convergence_result_clone_and_eq() {
    let r = ConvergenceResult::Blocked { reason: "test".into() };
    assert_eq!(r.clone(), r);
}

#[test]
fn convergence_result_continue_is_neither() {
    let r = ConvergenceResult::Continue;
    assert!(!r.is_converged());
    assert!(!r.is_blocked());
    let b = ConvergenceResult::Blocked { reason: "gate".into() };
    assert!(!b.is_converged());
}
