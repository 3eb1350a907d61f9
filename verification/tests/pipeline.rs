use tau_runtime_core::check::CheckVerdict;
use tau_runtime_core::error::RuntimeError;
use tau_runtime_core::pipeline::{
    loop_may_run, loop_step, tool_step_output, CheckStep, LoopStep, OnFail, PipelineCursor, RetryPolicy,
};

fn fail(r: &str) -> CheckVerdict {
    CheckVerdict { met: false, rationale: r.into() }
}

fn pass() -> CheckVerdict {
    CheckVerdict { met: true, rationale: "ok".into() }
}

fn ids(v: &[&str]) -> Vec<String> {
    v.iter().map(|s| s.to_string()).collect()
}

#[test]
fn failed_check_rewinds_to_gate_then_aborts_when_attempts_run_out() {
    let steps = ids(&["draft", "review"]);
    let policy = RetryPolicy { on_fail: OnFail::Retry, max_attempts: 2, gate: "draft".into() };
    let mut c = PipelineCursor::new(None);
    match c.check_step("c1", "goal", &policy, fail("too short"), &steps) {
        CheckStep::RewindTo(i) => assert_eq!(i, 0),
        other => panic!("{other:?}"),
    }
    let prompts = c.agent_step_prompts("draft", "write it");
    assert_eq!(
        prompts,
        vec!["Previous attempt rejected: (check 'c1') too short".to_string(), "write it".to_string()]
    );
    match c.check_step("c1", "goal", &policy, fail("still short"), &steps) {
        CheckStep::Abort(RuntimeError::CheckFailed { id, kind, rationale, attempt }) => {
            assert_eq!(id, "c1");
            assert_eq!(kind, "goal");
            assert_eq!(rationale, "still short");
            assert_eq!(attempt, 2);
        }
        other => panic!("{other:?}"),
    }
}

#[test]
fn abort_policy_fails_on_first_failure() {
    let steps = ids(&["draft"]);
    let policy = RetryPolicy { on_fail: OnFail::Abort, max_attempts: 5, gate: "draft".into() };
    let mut c = PipelineCursor::new(None);
    assert!(matches!(
        c.check_step("c", "deliverable", &policy, fail("no"), &steps),
        CheckStep::Abort(RuntimeError::CheckFailed { attempt: 1, .. })
    ));
}

#[test]
fn passing_check_clears_only_its_own_feedback() {
    let steps = ids(&["draft", "a", "b"]);
    let policy = RetryPolicy { on_fail: OnFail::Retry, max_attempts: 5, gate: "draft".into() };
    let mut c = PipelineCursor::new(None);
    c.check_step("b_check", "goal", &policy, fail("rb"), &steps);
    c.check_step("a_check", "goal", &policy, fail("ra"), &steps);
    assert_eq!(
        c.agent_step_prompts("draft", "go"),
        vec![
            "Previous attempt rejected: (check 'a_check') ra".to_string(),
            "Previous attempt rejected: (check 'b_check') rb".to_string(),
            "go".to_string()
        ]
    );
    assert!(matches!(c.check_step("a_check", "goal", &policy, pass(), &steps), CheckStep::Advance));
    assert_eq!(
        c.agent_step_prompts("draft", "go"),
        vec!["Previous attempt rejected: (check 'b_check') rb".to_string(), "go".to_string()]
    );
    assert_eq!(c.agent_step_prompts("a", "other"), vec!["other".to_string()]);
}

#[test]
fn unknown_gate_is_an_internal_error() {
    let steps = ids(&["draft"]);
    let policy = RetryPolicy { on_fail: OnFail::Retry, max_attempts: 5, gate: "nowhere".into() };
    let mut c = PipelineCursor::new(None);
    match c.check_step("c", "goal", &policy, fail("x"), &steps) {
        CheckStep::Abort(RuntimeError::Internal { message }) => {
            assert_eq!(message, "check c rewinds to unknown gate step nowhere")
        }
        other => panic!("{other:?}"),
    }
}

#[test]
fn loop_feedback_is_shown_once() {
    let mut c = PipelineCursor::new(Some("bad".into()));
    assert_eq!(
        c.agent_step_prompts("s", "in"),
        vec!["Previous attempt rejected: bad".to_string(), "in".to_string()]
    );
    assert_eq!(c.agent_step_prompts("s", "in"), vec!["in".to_string()]);
}

#[test]
fn loop_steps_converge_retry_or_exhaust() {
    assert!(!loop_may_run(0, 0));
    assert!(loop_may_run(0, 2));
    assert!(matches!(loop_step("l", 1, 2, pass()), LoopStep::Converged));
    match loop_step("l", 1, 2, fail("again")) {
        LoopStep::Again(fb) => assert_eq!(fb, "again"),
        other => panic!("{other:?}"),
    }
    match loop_step("l", 2, 2, fail("x")) {
        LoopStep::Exhausted(RuntimeError::LoopExhausted { step, max_iters }) => {
            assert_eq!(step, "l");
            assert_eq!(max_iters, 2);
        }
        other => panic!("{other:?}"),
    }
}

#[test]
fn tool_step_outputs() {
    assert_eq!(tool_step_output("s", "t", Some("{}".into()), None).unwrap(), "{}");
    assert_eq!(tool_step_output("s", "t", None, None).unwrap(), "null");
    match tool_step_output("s", "t", None, Some("boom".into())) {
        Err(RuntimeError::Internal { message }) => assert_eq!(message, "pipeline step s (tool t) errored: boom"),
        other => panic!("{other:?}"),
    }
}
