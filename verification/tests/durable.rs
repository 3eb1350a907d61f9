use tau_runtime_core::durable::{
    resolve_durability, CheckpointGranularity, Durability, DurabilityIntent, DurableStore, Support,
};

#[test]
fn every_registered_target_honors_survive_restarts() {
    let d = Durability::Intent(DurabilityIntent::SurviveRestarts);
    let r = resolve_durability(&d, true);
    assert_eq!(r.checkpoint, CheckpointGranularity::PerTurn);
    assert_eq!(r.store, DurableStore::File);
    assert!(matches!(r.support, Support::Honored));
    assert_eq!(r.from_intent, Some(DurabilityIntent::SurviveRestarts));
}

#[test]
fn explicit_resolves_to_itself_on_a_registered_target() {
    let d = Durability::Explicit { checkpoint: CheckpointGranularity::PerToolCall, store: DurableStore::File };
    let r = resolve_durability(&d, true);
    assert_eq!(r.checkpoint, CheckpointGranularity::PerToolCall);
    assert_eq!(r.store, DurableStore::File);
    assert!(matches!(r.support, Support::Honored));
    assert_eq!(r.from_intent, None);
}

#[test]
fn unregistered_target_is_unsupported_and_require_errs() {
    let d = Durability::Intent(DurabilityIntent::SurviveRestarts);
    let r = resolve_durability(&d, false);
    assert!(matches!(r.support, Support::Unsupported { .. }));
    assert_eq!(r.from_intent, Some(DurabilityIntent::SurviveRestarts));
    let e = r.clone().require_supported("windows-wasi-none").unwrap_err();
    assert_eq!(
        e.to_string(),
        "target `windows-wasi-none` cannot honor the requested durability: target has no durable file store for survive-restarts"
    );
    let ok = resolve_durability(&d, true);
    assert!(ok.clone().require_supported("x").is_ok());
}

#[test]
fn explicit_on_unregistered_target_is_unsupported() {
    let d = Durability::Explicit { checkpoint: CheckpointGranularity::PerTurn, store: DurableStore::File };
    let r = resolve_durability(&d, false);
    assert_eq!(r.support, Support::Unsupported { reason: "target has no durable file store".into() });
}
