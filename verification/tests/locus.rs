use tau_runtime_core::artifact::{ArtifactReader, InMemoryArtifactReader};
use tau_runtime_core::check::{
    builtin_judge_agent, deliverable_floor, judge_usage, judge_user_turn, located_read,
    missing_judge_error, resolve_locus, Locus,
};
use tau_runtime_core::error::RuntimeError;
use tau_runtime_core::options::TokenUsage;
use tau_runtime_core::outcome::{AgentStatus, RunOutcome};
use tau_runtime_core::output_store::{OutputStore, StepValue};

#[test]
fn goal_locus_reads_present_path() {
    let store = OutputStore::new();
    let reader = InMemoryArtifactReader::new().with_file("/r.md", b"hello");
    let r = resolve_locus(&Locus::Path("/r.md".into()), &store, Some(&reader)).unwrap();
    assert_eq!(r, (true, Some("hello".to_string())));
}

#[test]
fn goal_locus_absent_path_is_not_present() {
    let store = OutputStore::new();
    let reader = InMemoryArtifactReader::new();
    let r = resolve_locus(&Locus::Path("/missing".into()), &store, Some(&reader)).unwrap();
    assert_eq!(r, (false, None));
}

#[test]
fn path_locus_without_reader_is_internal_error() {
    let store = OutputStore::new();
    let r = resolve_locus::<InMemoryArtifactReader>(&Locus::Path("/x".into()), &store, None);
    match r {
        Err(RuntimeError::Internal { message }) => {
            assert_eq!(message, "check needs an artifact reader to read /x")
        }
        other => panic!("unexpected {other:?}"),
    }
}

#[test]
fn output_locus_reads_the_store() {
    let mut store = OutputStore::new();
    store.insert("draft", StepValue::Str("text".into()));
    store.insert("data", StepValue::Json("{\"a\":1}".into()));
    let none: Option<&InMemoryArtifactReader> = None;
    assert_eq!(
        resolve_locus(&Locus::Output("draft".into()), &store, none).unwrap(),
        (true, Some("text".to_string()))
    );
    assert_eq!(
        resolve_locus(&Locus::Output("data".into()), &store, none).unwrap(),
        (true, Some("{\"a\":1}".to_string()))
    );
    assert_eq!(resolve_locus(&Locus::Output("other".into()), &store, none).unwrap(), (false, None));
}

#[test]
fn located_read_decodes_lossily_and_passes_errors() {
    assert_eq!(located_read(Ok(Some(vec![0x61, 0xff]))).unwrap(), (true, Some("a\u{fffd}".to_string())));
    assert_eq!(located_read(Ok(None)).unwrap(), (false, None));
    let e = located_read(Err(RuntimeError::Internal { message: "io".into() }));
    assert!(matches!(e, Err(RuntimeError::Internal { message }) if message == "io"));
}

#[test]
fn reader_through_trait_object_shape() {
    fn read<R: ArtifactReader>(r: &R) -> Option<Vec<u8>> {
        r.read_path("/a").unwrap()
    }
    let reader = InMemoryArtifactReader::new().with_file("/a", b"A");
    assert_eq!(read(&reader), Some(b"A".to_vec()));
}

#[test]
fn deliverable_absent_artifact_fails_without_judge() {
    let v = deliverable_floor(&Locus::Path("/missing.md".into()), false, None).unwrap_err();
    assert!(!v.met);
    assert_eq!(v.rationale, "deliverable Path(\"/missing.md\") was not produced");
    let v = deliverable_floor(&Locus::Output("draft".into()), false, None).unwrap_err();
    assert_eq!(v.rationale, "deliverable Output(\"draft\") was not produced");
}

#[test]
fn deliverable_present_artifact_goes_to_judge() {
    let a = deliverable_floor(&Locus::Path("/out.md".into()), true, Some("report".into())).unwrap();
    assert_eq!(a, "report");
    let a = deliverable_floor(&Locus::Path("/out.md".into()), true, None).unwrap();
    assert_eq!(a, "");
}

#[test]
fn builtin_judge_defaults_its_model() {
    let j = builtin_judge_agent(None, "small-model");
    assert_eq!(j.id, "__builtin_judge");
    assert_eq!(j.model, "small-model");
    assert!(j.prompt.starts_with("You are a strict, terse deliverable evaluator."));
    assert!(j.prompt.contains("{\"met\": <true|false>, \"rationale\": \"<one sentence explaining why>\"}"));
    let j = builtin_judge_agent(Some("m-1".into()), "small-model");
    assert_eq!(j.model, "m-1");
}

#[test]
fn judge_user_turn_carries_criterion_and_artifact() {
    assert_eq!(
        judge_user_turn("non-empty", Some(b"body")),
        "CRITERION:\nnon-empty\n\nARTIFACT:\nbody"
    );
    assert_eq!(judge_user_turn("c", None), "CRITERION:\nc\n\nARTIFACT:\n<artifact missing>");
}

#[test]
fn missing_judge_is_internal_error() {
    match missing_judge_error("critic") {
        RuntimeError::Internal { message } => {
            assert_eq!(message, "judge agent critic not found (typecheck should have caught this)")
        }
        other => panic!("unexpected {other:?}"),
    }
}

#[test]
fn judge_usage_of_either_outcome() {
    let u = TokenUsage { input_tokens: 3, output_tokens: 4, total_tokens: Some(7) };
    let failed = RunOutcome::Failed {
        status: AgentStatus::Stopped,
        all_messages: vec![],
        total_turns: 1,
        token_usage: u,
    };
    assert_eq!(judge_usage(&failed), u);
}
