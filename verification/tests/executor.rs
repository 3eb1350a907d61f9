use tau_runtime_core::check::CheckVerdict;
use tau_runtime_core::error::RuntimeError;
use tau_runtime_core::executor::{merge_parallel, start_pipeline, walk_step, Arm, SliceWalk, StepKind, WalkAction, WalkEvent, WalkStep};
use tau_runtime_core::output_store::{OutputStore, StepValue};
use tau_runtime_core::pipeline::{OnFail, RetryPolicy};

fn step(id: &str, kind: StepKind) -> WalkStep {
    WalkStep { id: id.into(), kind }
}

fn check(id: &str, on_fail: OnFail, max_attempts: u32, gate: &str) -> StepKind {
    StepKind::Check {
        check_id: id.into(),
        kind: "goal".into(),
        policy: RetryPolicy { on_fail, max_attempts, gate: gate.into() },
    }
}

fn fail(r: &str) -> WalkEvent {
    WalkEvent::Verdict(CheckVerdict { met: false, rationale: r.into() })
}

fn pass() -> WalkEvent {
    WalkEvent::Verdict(CheckVerdict { met: true, rationale: "ok".into() })
}

fn run_agent_step(w: &mut SliceWalk, expected: &[&str]) {
    assert!(matches!(walk_step(w, WalkEvent::Next), WalkAction::Render { step: 0 }));
    match walk_step(w, WalkEvent::Rendered("write".into())) {
        WalkAction::RunAgent { step, prompts } => {
            assert_eq!(step, 0);
            assert_eq!(prompts, expected.iter().map(|s| s.to_string()).collect::<Vec<_>>());
        }
        other => panic!("{other:?}"),
    }
    assert!(matches!(walk_step(w, WalkEvent::StepDone), WalkAction::Evaluate { step: 1 }));
}

#[test]
fn failing_check_rewinds_to_gate_then_aborts_on_last_attempt() {
    let mut w = SliceWalk::new(
        vec![step("draft", StepKind::Agent), step("c", check("c", OnFail::Retry, 3, "draft"))],
        None,
    );
    run_agent_step(&mut w, &["write"]);
    match walk_step(&mut w, fail("too short")) {
        WalkAction::CheckRetry { id, attempt, rewind_to } => {
            assert_eq!((id.as_str(), attempt, rewind_to), ("c", 1, 0));
        }
        other => panic!("{other:?}"),
    }
    run_agent_step(&mut w, &["Previous attempt rejected: (check 'c') too short", "write"]);
    match walk_step(&mut w, fail("still short")) {
        WalkAction::CheckRetry { attempt, .. } => assert_eq!(attempt, 2),
        other => panic!("{other:?}"),
    }
    run_agent_step(&mut w, &["Previous attempt rejected: (check 'c') still short", "write"]);
    match walk_step(&mut w, fail("short again")) {
        WalkAction::CheckAbort { id, attempt, error } => {
            assert_eq!((id.as_str(), attempt), ("c", 3));
            assert_eq!(
                error,
                RuntimeError::CheckFailed {
                    id: "c".into(),
                    kind: "goal".into(),
                    rationale: "short again".into(),
                    attempt: 3
                }
            );
        }
        other => panic!("{other:?}"),
    }
    assert!(matches!(walk_step(&mut w, WalkEvent::Next), WalkAction::Idle));
}

#[test]
fn passing_check_clears_feedback_and_finishes() {
    let mut w = SliceWalk::new(
        vec![step("draft", StepKind::Agent), step("c", check("c", OnFail::Retry, 3, "draft"))],
        Some("loop said no".into()),
    );
    run_agent_step(&mut w, &["Previous attempt rejected: loop said no", "write"]);
    match walk_step(&mut w, pass()) {
        WalkAction::CheckPassed { id, attempt } => assert_eq!((id.as_str(), attempt), ("c", 1)),
        other => panic!("{other:?}"),
    }
    match walk_step(&mut w, WalkEvent::Next) {
        WalkAction::Finished(r) => assert_eq!(r, Ok(())),
        other => panic!("{other:?}"),
    }
}

#[test]
fn abort_policy_and_unknown_gate_end_the_slice() {
    let mut w = SliceWalk::new(vec![step("c", check("c", OnFail::Abort, 5, "c"))], None);
    assert!(matches!(walk_step(&mut w, WalkEvent::Next), WalkAction::Evaluate { step: 0 }));
    match walk_step(&mut w, fail("no")) {
        WalkAction::CheckAbort { attempt, error: RuntimeError::CheckFailed { attempt: a, .. }, .. } => {
            assert_eq!((attempt, a), (1, 1))
        }
        other => panic!("{other:?}"),
    }
    let mut w = SliceWalk::new(vec![step("c", check("c", OnFail::Retry, 5, "nowhere"))], None);
    walk_step(&mut w, WalkEvent::Next);
    match walk_step(&mut w, fail("no")) {
        WalkAction::CheckAbort { error, .. } => assert_eq!(
            error,
            RuntimeError::Internal { message: "check c rewinds to unknown gate step nowhere".into() }
        ),
        other => panic!("{other:?}"),
    }
}

#[test]
fn loop_runs_passes_with_feedback_until_exhausted() {
    let mut w = SliceWalk::new(vec![step("l", StepKind::Loop { max_iters: 2 })], None);
    match walk_step(&mut w, WalkEvent::Next) {
        WalkAction::RunArm { step, arm, feedback } => {
            assert_eq!((step, arm, feedback), (0, Arm::Body, None));
        }
        other => panic!("{other:?}"),
    }
    assert!(matches!(walk_step(&mut w, WalkEvent::SliceDone), WalkAction::Evaluate { step: 0 }));
    match walk_step(&mut w, fail("not yet")) {
        WalkAction::RunArm { arm, feedback, .. } => {
            assert_eq!((arm, feedback), (Arm::Body, Some("not yet".to_string())));
        }
        other => panic!("{other:?}"),
    }
    walk_step(&mut w, WalkEvent::SliceDone);
    match walk_step(&mut w, fail("still not")) {
        WalkAction::Finished(r) => {
            assert_eq!(r, Err(RuntimeError::LoopExhausted { step: "l".into(), max_iters: 2 }))
        }
        other => panic!("{other:?}"),
    }
}

#[test]
fn loop_of_no_passes_is_exhausted_and_converged_loop_advances() {
    let mut w = SliceWalk::new(vec![step("l", StepKind::Loop { max_iters: 0 })], None);
    match walk_step(&mut w, WalkEvent::Next) {
        WalkAction::Finished(r) => {
            assert_eq!(r, Err(RuntimeError::LoopExhausted { step: "l".into(), max_iters: 0 }))
        }
        other => panic!("{other:?}"),
    }
    let mut w = SliceWalk::new(
        vec![step("l", StepKind::Loop { max_iters: 3 }), step("p", StepKind::Parallel)],
        None,
    );
    walk_step(&mut w, WalkEvent::Next);
    walk_step(&mut w, WalkEvent::SliceDone);
    assert!(matches!(walk_step(&mut w, pass()), WalkAction::RunParallel { step: 1 }));
    assert!(matches!(walk_step(&mut w, WalkEvent::SliceDone), WalkAction::Finished(Ok(()))));
}

#[test]
fn branch_picks_arm_and_work_step_gets_rendered_input() {
    let mut w = SliceWalk::new(vec![step("b", StepKind::Branch), step("t", StepKind::Work)], None);
    assert!(matches!(walk_step(&mut w, WalkEvent::Next), WalkAction::Evaluate { step: 0 }));
    match walk_step(&mut w, fail("no")) {
        WalkAction::RunArm { arm, .. } => assert_eq!(arm, Arm::Otherwise),
        other => panic!("{other:?}"),
    }
    assert!(matches!(walk_step(&mut w, WalkEvent::SliceDone), WalkAction::Render { step: 1 }));
    match walk_step(&mut w, WalkEvent::Rendered("{\"q\":1}".into())) {
        WalkAction::RunWork { step, rendered } => assert_eq!((step, rendered.as_str()), (1, "{\"q\":1}")),
        other => panic!("{other:?}"),
    }
    assert!(matches!(walk_step(&mut w, WalkEvent::StepDone), WalkAction::Finished(Ok(()))));
}

#[test]
fn suspend_render_failure_and_host_failure_end_the_slice() {
    let mut w = SliceWalk::new(vec![step("s", StepKind::Suspend { resume_signal: "go".into() })], None);
    match walk_step(&mut w, WalkEvent::Next) {
        WalkAction::Finished(r) => assert_eq!(
            r,
            Err(RuntimeError::SuspendNotImplemented { step: "s".into(), resume_signal: "go".into() })
        ),
        other => panic!("{other:?}"),
    }
    let mut w = SliceWalk::new(vec![step("a", StepKind::Agent)], None);
    walk_step(&mut w, WalkEvent::Next);
    match walk_step(&mut w, WalkEvent::RenderFailed("boom".into())) {
        WalkAction::Finished(r) => {
            assert_eq!(r, Err(RuntimeError::Internal { message: "pipeline step a: boom".into() }))
        }
        other => panic!("{other:?}"),
    }
    let mut w = SliceWalk::new(vec![step("a", StepKind::Agent)], None);
    walk_step(&mut w, WalkEvent::Next);
    let err = RuntimeError::AgentNotFound { agent: "x".into() };
    match walk_step(&mut w, WalkEvent::Failed(err.clone())) {
        WalkAction::Finished(r) => assert_eq!(r, Err(err)),
        other => panic!("{other:?}"),
    }
    assert!(matches!(walk_step(&mut w, WalkEvent::StepDone), WalkAction::Idle));
}

fn store_with(pairs: &[(&str, &str)]) -> OutputStore {
    let mut s = OutputStore::new();
    for (k, v) in pairs {
        s.insert(k, StepValue::Str(v.to_string()));
    }
    s
}

#[test]
fn parallel_branches_merge_in_index_order() {
    let mut store = store_with(&[("base", "0"), ("x", "old")]);
    let results = vec![Ok(store_with(&[("x", "first"), ("a", "1")])), Ok(store_with(&[("x", "second")]))];
    assert_eq!(merge_parallel(&mut store, results), Ok(()));
    assert_eq!(store.get("x"), Some(&StepValue::Str("second".into())));
    assert_eq!(store.get("a"), Some(&StepValue::Str("1".into())));
    assert_eq!(store.get("base"), Some(&StepValue::Str("0".into())));
}

#[test]
fn parallel_failure_merges_nothing_and_reports_first_error() {
    let mut store = store_with(&[("base", "0")]);
    let e1 = RuntimeError::Internal { message: "one".into() };
    let e2 = RuntimeError::Internal { message: "two".into() };
    let results = vec![Ok(store_with(&[("a", "1")])), Err(e1.clone()), Err(e2)];
    assert_eq!(merge_parallel(&mut store, results), Err(e1));
    assert_eq!(store.get("a"), None);
}

#[test]
fn pipeline_needs_steps() {
    match start_pipeline(None) {
        Err(e) => assert_eq!(
            e,
            RuntimeError::Internal { message: "run_pipeline called on a module without a pipeline".into() }
        ),
        Ok(_) => panic!("a module without a pipeline has no walk"),
    }
    let mut w = start_pipeline(Some(vec![step("t", StepKind::Work)])).unwrap();
    assert!(matches!(walk_step(&mut w, WalkEvent::Next), WalkAction::Render { step: 0 }));
}
