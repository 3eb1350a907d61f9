use tau_runtime_core::context::{
    build_context_pipeline, CompactToolOutputs, ContextError, ContextNode, ContextNodeKind,
    ContextStep, FitBudget, HeuristicEstimator, TokenEstimator, TransformCx, TrimOld,
};
use tau_runtime_core::error::RuntimeError;
use tau_runtime_core::message::{Address, Message, MessagePayload};

fn msg(sender: Address, recipient: Address, payload: MessagePayload) -> Message {
    Message { id: "m".into(), timestamp_millis: 0, sender, recipient, payload }
}

fn user(c: &str) -> Message {
    msg(Address::User, Address::Agent(1), MessagePayload::Text { content: c.into() })
}

fn assistant(c: &str) -> Message {
    msg(Address::Agent(1), Address::User, MessagePayload::Text { content: c.into() })
}

fn tool_result(b: &str) -> Message {
    let body = serde_json::to_string(&serde_json::Value::String(b.into())).unwrap();
    msg(Address::Tool("t".into()), Address::Agent(1), MessagePayload::ToolResult { body })
}

fn text_of(m: &Message) -> &str {
    match &m.payload {
        MessagePayload::Text { content } => content,
        _ => panic!("not text"),
    }
}

fn body_of(m: &Message) -> &str {
    match &m.payload {
        MessagePayload::ToolResult { body } => body,
        _ => panic!("not a tool result"),
    }
}

#[test]
fn estimate_is_bytes_over_four_plus_overhead() {
    let m = msg(Address::User, Address::System, MessagePayload::Text { content: "12345678".into() });
    assert_eq!(HeuristicEstimator.estimate(&m), 6);
}

#[test]
fn estimate_is_deterministic() {
    let m = msg(
        Address::User,
        Address::System,
        MessagePayload::Text { content: "the fan-monitor reads temperature".into() },
    );
    assert_eq!(HeuristicEstimator.estimate(&m), HeuristicEstimator.estimate(&m));
}

#[test]
fn estimate_rounds_up_and_counts_every_field() {
    let m = msg(Address::User, Address::System, MessagePayload::Text { content: "123456789".into() });
    assert_eq!(HeuristicEstimator.estimate(&m), 3 + 4);
    let e = msg(
        Address::Tool("t".into()),
        Address::Agent(1),
        MessagePayload::ToolError { kind: "ab".into(), message: "cd".into(), details: Some("1234".into()) },
    );
    assert_eq!(HeuristicEstimator.estimate(&e), 2 + 4);
    let l = msg(Address::System, Address::User, MessagePayload::Lifecycle("started".into()));
    assert_eq!(HeuristicEstimator.estimate(&l), 4);
}

#[test]
fn trim_old_keeps_last_n_turns() {
    let msgs = vec![user("t1"), assistant("a1"), user("t2"), assistant("a2"), user("t3")];
    let out = TrimOld { keep_last_turns: 2 }.apply(msgs);
    assert_eq!(out.len(), 3);
    assert_eq!(text_of(&out[0]), "t2");
}

#[test]
fn trim_old_zero_keeps_everything() {
    let msgs = vec![user("t1"), assistant("a1"), user("t2")];
    assert_eq!(TrimOld { keep_last_turns: 0 }.apply(msgs).len(), 3);
}

#[test]
fn trim_old_counts_leading_messages_as_a_turn() {
    let msgs = vec![assistant("intro"), user("t1"), assistant("a1")];
    let out = TrimOld { keep_last_turns: 1 }.apply(msgs);
    assert_eq!(out.len(), 2);
    assert_eq!(text_of(&out[0]), "t1");
}

#[test]
fn compact_truncates_prior_tool_output_not_live() {
    let big = "x".repeat(100);
    let msgs = vec![user("t1"), tool_result(&big), user("t2"), tool_result(&big)];
    let out = CompactToolOutputs { max_bytes: 10 }.apply(msgs);
    let first = body_of(&out[1]);
    let last = body_of(&out[3]);
    assert!(first.contains("truncated"), "prior turn should be truncated: {first}");
    assert!(!last.contains("truncated"), "live turn should not be truncated: {last}");
}

#[test]
fn compact_marker_is_exact() {
    let msgs = vec![user("t1"), tool_result("abcdefghij"), user("t2")];
    let out = CompactToolOutputs { max_bytes: 4 }.apply(msgs);
    // The body's JSON text is "\"abcdefghij\"" (12 bytes); 4 kept, 8 dropped.
    assert_eq!(body_of(&out[1]), "\"\\\"abc\u{2026}[truncated 8 bytes]\u{2026}\"");
}

#[test]
fn fit_budget_drops_until_fits() {
    let big = "x".repeat(400);
    let msgs = vec![user(&big), assistant(&big), user("live")];
    let cx = TransformCx::pure(&HeuristicEstimator, None);
    let out = FitBudget { max_tokens: 60 }.apply(&cx, msgs).unwrap();
    assert_eq!(text_of(&out[0]), "live");
}

#[test]
fn fit_budget_unsatisfiable_when_live_too_big() {
    let big = "x".repeat(4000);
    let msgs = vec![user(&big)];
    let cx = TransformCx::pure(&HeuristicEstimator, None);
    let err = FitBudget { max_tokens: 10 }.apply(&cx, msgs).unwrap_err();
    assert!(matches!(err, ContextError::BudgetUnsatisfiable { .. }));
}

#[test]
fn fit_budget_counts_the_system_prompt() {
    let msgs = vec![user("12345678")];
    let cx = TransformCx::pure(&HeuristicEstimator, Some("abcdefgh"));
    let err = FitBudget { max_tokens: 7 }.apply(&cx, msgs).unwrap_err();
    assert_eq!(err, ContextError::BudgetUnsatisfiable { protected_tokens: 8, max_tokens: 7 });
    assert_eq!(err.to_string(), "context budget unsatisfiable: protected 8 tokens > max 7");
}

#[test]
fn fit_budget_keeps_everything_that_fits() {
    let msgs = vec![user("a"), assistant("b"), user("c")];
    let cx = TransformCx::pure(&HeuristicEstimator, None);
    assert_eq!(FitBudget { max_tokens: 100 }.apply(&cx, msgs).unwrap().len(), 3);
}

#[test]
fn transformer_error_text() {
    let e = ContextError::Transformer { name: "x".into(), detail: "bad".into() };
    assert_eq!(e.to_string(), "context transformer 'x' failed: bad");
}

#[test]
fn config_defaults_and_overrides() {
    let cfg: Vec<(String, Option<u64>)> = vec![];
    assert_eq!(TrimOld::from_config(&cfg).keep_last_turns, 8);
    assert_eq!(CompactToolOutputs::from_config(&cfg).max_bytes, 1024);
    assert_eq!(FitBudget::from_config(&cfg).max_tokens, 8192);
    let cfg = vec![("keep_last_turns".to_string(), Some(3)), ("max_tokens".to_string(), Some(50))];
    assert_eq!(TrimOld::from_config(&cfg).keep_last_turns, 3);
    assert_eq!(FitBudget::from_config(&cfg).max_tokens, 50);
}

fn step(name: &str, kind: ContextNodeKind) -> ContextStep {
    ContextStep { transformer: name.into(), kind, config: vec![] }
}

#[test]
fn builds_three_builtins() {
    let steps = vec![step("trim_old", ContextNodeKind::Builtin), step("fit_budget", ContextNodeKind::Builtin)];
    let pipe = build_context_pipeline(&steps, None).unwrap();
    assert_eq!(pipe.len(), 2);
    assert_eq!(pipe[0].name(), "trim_old");
    assert_eq!(pipe[1].name(), "fit_budget");
}

#[test]
fn builds_compact_tool_outputs() {
    let steps = vec![step("compact_tool_outputs", ContextNodeKind::Builtin)];
    let pipe = build_context_pipeline(&steps, None).unwrap();
    assert_eq!(pipe.len(), 1);
    assert_eq!(pipe[0].name(), "compact_tool_outputs");
}

#[test]
fn unknown_builtin_returns_internal_error() {
    let steps = vec![step("nonexistent_transformer", ContextNodeKind::Builtin)];
    match build_context_pipeline(&steps, None) {
        Err(RuntimeError::Internal { message }) => {
            assert!(message.contains("nonexistent_transformer"), "got: {message}")
        }
        other => panic!("expected Internal, got: {other:?}"),
    }
}

#[test]
fn custom_node_without_registry_returns_error() {
    let steps = vec![step("my_custom", ContextNodeKind::Custom)];
    assert!(matches!(build_context_pipeline(&steps, None), Err(RuntimeError::Internal { .. })));
}

#[test]
fn custom_node_with_registry_resolves() {
    let steps = vec![step("my_custom", ContextNodeKind::Custom)];
    let registry = vec!["my_custom".to_string()];
    let pipe = build_context_pipeline(&steps, Some(&registry)).unwrap();
    assert_eq!(pipe.len(), 1);
    assert_eq!(pipe[0].name(), "my_custom");
    assert!(matches!(pipe[0], ContextNode::Custom(_)));
}

#[test]
fn empty_pipeline_returns_empty_vec() {
    let steps: Vec<ContextStep> = vec![];
    assert!(build_context_pipeline(&steps, None).unwrap().is_empty());
}

#[test]
fn compact_keeps_at_most_max_bytes_of_non_ascii_body() {
    // "\"éééé\"" is 10 bytes; with max 4 bytes the kept prefix is "\"é"
    // (3 bytes): one more "é" would make 5.
    let msgs = vec![user("t1"), tool_result("éééé"), user("t2")];
    let out = CompactToolOutputs { max_bytes: 4 }.apply(msgs);
    let marker: String = serde_json::from_str(body_of(&out[1])).unwrap();
    assert_eq!(marker, "\"é\u{2026}[truncated 7 bytes]\u{2026}");
    let kept = marker.split('\u{2026}').next().unwrap();
    assert!(kept.len() <= 4);
}
