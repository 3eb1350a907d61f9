use tau_runtime_core::dynamic::{
    admit_denial_text, child_agent_id, skill_child_id, skill_spawn_failure, spawn_child_id, spawn_gate,
    spawn_result, spawn_tool_name, AdmitError, ChildRun, RegionCounters, SpawnGate,
};

#[test]
fn admitted_spawn_indexes_are_sequential() {
    let mut counters = RegionCounters::new(5, 5);
    assert_eq!(counters.try_admit().expect("admit 0"), 0);
    assert_eq!(counters.try_admit().expect("admit 1"), 1);
    assert_eq!(counters.try_admit().expect("admit 2"), 2);
    counters.release();
    counters.release();
    counters.release();
    assert_eq!(counters.try_admit().expect("admit 3"), 3);
}

#[test]
fn spawns_beyond_the_budget_are_refused() {
    let mut counters = RegionCounters::new(1, 5);
    assert_eq!(counters.try_admit(), Ok(0));
    assert_eq!(counters.try_admit(), Err(AdmitError::Bounds { spawned: 1, max: 1 }));
}

#[test]
fn spawns_beyond_concurrency_are_refused() {
    let mut counters = RegionCounters::new(5, 1);
    assert_eq!(counters.try_admit(), Ok(0));
    assert_eq!(counters.try_admit(), Err(AdmitError::Concurrency { in_flight: 1, max: 1 }));
    counters.release();
    assert_eq!(counters.try_admit(), Ok(2));
}

#[test]
fn spawn_texts_are_exact() {
    assert_eq!(spawn_tool_name("worker"), "agent.worker.spawn");
    assert_eq!(child_agent_id("region", "worker", 3), "region:worker#3");
    assert_eq!(
        admit_denial_text("r", "w", AdmitError::Bounds { spawned: 2, max: 2 }),
        "spawn denied: region `r` max_spawns exhausted (2/2) \u{2014} kind `w`; proceed with the results you have"
    );
    let t = admit_denial_text("r", "w", AdmitError::Concurrency { in_flight: 1, max: 1 });
    assert!(t.contains("max_concurrency exceeded (1/1)"), "{t}");
}

#[test]
fn spawn_gate_refuses_missing_message_and_admits_otherwise() {
    let mut counters = RegionCounters::new(2, 2);
    match spawn_gate(&mut counters, "agent.w.spawn", "r", "w", false) {
        SpawnGate::Reject(t) => assert_eq!(t, "agent.w.spawn: missing required arg `message`"),
        other => panic!("{other:?}"),
    }
    match spawn_gate(&mut counters, "agent.w.spawn", "r", "w", true) {
        SpawnGate::Admit { child_id, index } => {
            assert_eq!(child_id, "r:w#0");
            assert_eq!(index, 0);
        }
        other => panic!("{other:?}"),
    }
}

#[test]
fn spawn_results_map_outcomes() {
    assert_eq!(spawn_result("c", ChildRun::Completed { last_text: "done".into() }), (false, "done".to_string()));
    assert_eq!(
        spawn_result("c", ChildRun::Failed { last_text: "".into(), status: "Failed".into() }),
        (true, "spawn `c` failed: Failed".to_string())
    );
    assert_eq!(
        spawn_result("c", ChildRun::KernelError("boom".into())),
        (true, "spawn `c` failed: boom".to_string())
    );
}

#[test]
fn virtual_spawn_child_ids_and_failure_text() {
    assert_eq!(skill_child_id("lead", "review.critic"), "lead-skill-review-critic");
    assert_eq!(spawn_child_id("writer", "01ARZ3NDEKTSV4RRFFQ69G5FAV"), "writer-01arz3nd");
    assert_eq!(spawn_child_id("w", "AB-C"), "w-abc");
    assert_eq!(
        skill_spawn_failure("no skill resolver available for skill resolution"),
        "skill spawn failed: no skill resolver available for skill resolution"
    );
}
