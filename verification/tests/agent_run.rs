use tau_runtime_core::agent_run::{
    build_policy_denied_outcome, close_run, fatal_event_to_error, forwarded_tool_result, forwarded_tool_text,
    inference_completed, last_assistant_text, llm_fatal_event, subflow_tool_result, subflow_tool_text, tool_fatal_event,
    tool_not_registered_event, turn_completed_stop, AgentRun, Checkpoint, RunStatus, StopReason,
    TaskStatus, ToolBody, ToolUse, TurnUsage,
};
use tau_runtime_core::error::{CapabilityDenial, RuntimeError, ToolError};
use tau_runtime_core::message::{Address, Message, MessagePayload};
use tau_runtime_core::options::TokenUsage;
use tau_runtime_core::outcome::{AgentStatus, FailureKind, RunOutcome};

fn user(c: &str) -> Message {
    Message { id: "u".into(), timestamp_millis: 0, sender: Address::User, recipient: Address::Agent(1), payload: MessagePayload::Text { content: c.into() } }
}

#[test]
fn fresh_run_seeds_history_and_counts_turns() {
    let mut run = AgentRun::start(vec![user("old")], user("new"), 2, None);
    assert_eq!(run.messages.len(), 2);
    assert_eq!(run.total_turns, 0);
    assert!(run.may_start_turn());
    assert_eq!(run.begin_turn(), 1);
    run.record_inference("hello", Some(TurnUsage { input_tokens: 10, output_tokens: 3 }), "m1", 5, 9);
    assert_eq!(run.messages.len(), 3);
    assert_eq!(run.token_usage, TokenUsage { input_tokens: 10, output_tokens: 3, total_tokens: None });
    assert_eq!(run.begin_turn(), 2);
    run.record_inference("", None, "m2", 6, 9);
    assert_eq!(run.messages.len(), 3);
    assert!(!run.may_start_turn());
    match run.max_turns_outcome() {
        RunOutcome::Failed { status: AgentStatus::Failed { kind, detail }, total_turns, .. } => {
            assert_eq!(kind, FailureKind::OutOfResources);
            assert_eq!(detail.unwrap(), "max_turns (2) reached");
            assert_eq!(total_turns, 2);
        }
        other => panic!("{other:?}"),
    }
}

#[test]
fn resume_does_not_rebill_committed_turns() {
    let ck = Checkpoint {
        turn: 3,
        history: vec![user("a")],
        input_tokens: 100,
        output_tokens: 40,
        pending_tool_uses: vec![],
    };
    let run = AgentRun::start(vec![], user("ignored"), 10, Some(ck));
    assert_eq!(run.total_turns, 3);
    assert_eq!(run.messages.len(), 1);
    assert_eq!(run.token_usage.input_tokens, 100);
    let ck = Checkpoint {
        turn: 3,
        history: vec![],
        input_tokens: 0,
        output_tokens: 0,
        pending_tool_uses: vec![ToolUse { id: "t".into(), name: "echo".into(), input: "{}".into() }],
    };
    let mut run = AgentRun::start(vec![], user("x"), 10, Some(ck));
    assert_eq!(run.total_turns, 2);
    assert_eq!(run.take_resume_pending().len(), 1);
    assert!(run.take_resume_pending().is_empty());
}

#[test]
fn completion_reports_last_message() {
    let run = AgentRun::start(vec![], user("hi"), 4, None);
    match run.complete() {
        RunOutcome::Completed { final_message, all_messages, total_turns, .. } => {
            assert_eq!(final_message.id, "u");
            assert_eq!(all_messages.len(), 1);
            assert_eq!(total_turns, 0);
        }
        other => panic!("{other:?}"),
    }
}

#[test]
fn budget_and_policy_failures_carry_their_detail() {
    let run = AgentRun::start(vec![], user("hi"), 4, None);
    match run.budget_exceeded_outcome("budget max_total_tokens exceeded: 150 / 100") {
        RunOutcome::Failed { status: AgentStatus::Failed { detail, .. }, .. } => {
            assert_eq!(detail.unwrap(), "run budget exceeded: budget max_total_tokens exceeded: 150 / 100")
        }
        other => panic!("{other:?}"),
    }
    let d = CapabilityDenial::new("a", "p", "t", "fs.read", "/x");
    match build_policy_denied_outcome(&d, vec![], 1, TokenUsage::default()) {
        RunOutcome::Failed { status: AgentStatus::Failed { kind, detail }, .. } => {
            assert_eq!(kind, FailureKind::PolicyDenied);
            assert_eq!(detail.unwrap(), d.to_string());
        }
        other => panic!("{other:?}"),
    }
}

#[test]
fn event_fields_default_when_unreported() {
    assert_eq!(inference_completed(None, None), (StopReason::EndTurn, 0, 0));
    assert_eq!(
        inference_completed(Some(StopReason::MaxTokens), Some(TurnUsage { input_tokens: 2, output_tokens: 3 })),
        (StopReason::MaxTokens, 2, 3)
    );
    assert_eq!(turn_completed_stop(None, true), StopReason::ToolUse);
    assert_eq!(turn_completed_stop(None, false), StopReason::EndTurn);
}

#[test]
fn fatal_events_round_trip_to_kernel_errors() {
    let ev = tool_fatal_event(&ToolError::SessionDead { reason: "x".into() });
    assert_eq!(ev.detail, "session dead: x");
    assert_eq!(fatal_event_to_error(&ev), RuntimeError::Tool(ToolError::SessionDead { reason: "session dead: x".into() }));
    let ev = tool_fatal_event(&ToolError::DeadlineExceeded);
    assert_eq!(ev.detail, "deadline exceeded");
    assert_eq!(fatal_event_to_error(&ev), RuntimeError::Tool(ToolError::DeadlineExceeded));
    let reg = vec!["a".to_string(), "b".to_string()];
    let ev = tool_not_registered_event("zz", &reg);
    assert_eq!(ev.detail, "tool `zz` not registered; registered: [\"a\", \"b\"]");
    assert_eq!(
        fatal_event_to_error(&ev),
        RuntimeError::ToolNotRegistered { tool_name: "zz".into(), registered: reg }
    );
    assert_eq!(fatal_event_to_error(&llm_fatal_event("down".into())), RuntimeError::Llm { message: "down".into() });
}

#[test]
fn last_text_and_tool_texts() {
    let msgs = vec![
        user("q"),
        Message { id: "a".into(), timestamp_millis: 0, sender: Address::Agent(1), recipient: Address::User, payload: MessagePayload::Text { content: "answer".into() } },
        Message { id: "t".into(), timestamp_millis: 0, sender: Address::Tool("x".into()), recipient: Address::Agent(1), payload: MessagePayload::ToolResult { body: "1".into() } },
    ];
    let outcome = RunOutcome::Failed {
        status: AgentStatus::Failed { kind: FailureKind::Crashed, detail: None },
        all_messages: msgs,
        total_turns: 1,
        token_usage: TokenUsage::default(),
    };
    assert_eq!(last_assistant_text(&outcome), "answer");
    assert_eq!(subflow_tool_text("Child", &outcome), (true, "subflow agent Child failed: answer".to_string()));
    assert_eq!(forwarded_tool_text(Some("bad".into()), None), (true, "bad".to_string()));
    assert_eq!(forwarded_tool_text(None, Some(ToolBody::Str("hello".into()))), (false, "hello".to_string()));
    assert_eq!(forwarded_tool_text(None, None), (false, String::new()));
}

#[test]
fn run_closes_completed_only_without_orphans() {
    let tasks = vec![("t1".to_string(), TaskStatus::Done), ("t2".to_string(), TaskStatus::Open)];
    assert_eq!(close_run(true, &tasks), (RunStatus::Failed, vec!["t2".to_string()]));
    let done = vec![("t1".to_string(), TaskStatus::Discarded)];
    assert_eq!(close_run(true, &done), (RunStatus::Completed, vec![]));
    assert_eq!(close_run(false, &done), (RunStatus::Failed, vec![]));
}

#[test]
fn checkpoint_resume_continues_at_next_turn_without_rebilling() {
    let mut run = AgentRun::start(vec![], user("go"), 5, None);
    run.begin_turn();
    run.record_inference("one", Some(TurnUsage { input_tokens: 7, output_tokens: 2 }), "m1", 1, 3);
    let c = run.checkpoint(vec![]);
    assert_eq!(c.turn, 1);
    assert_eq!(c.input_tokens, 7);
    assert_eq!(c.output_tokens, 2);
    let mut resumed = AgentRun::start(vec![], user("ignored"), 5, Some(c));
    assert_eq!(resumed.messages.len(), 2);
    assert_eq!(resumed.token_usage.input_tokens, 7);
    assert_eq!(resumed.begin_turn(), 2);
}

#[test]
fn mid_turn_checkpoint_resume_re_enters_same_turn_with_pending_tools() {
    let mut run = AgentRun::start(vec![], user("go"), 5, None);
    run.begin_turn();
    run.begin_turn();
    let pending = vec![ToolUse { id: "t2".into(), name: "echo".into(), input: "{}".into() }];
    let c = run.checkpoint(pending);
    let mut resumed = AgentRun::start(vec![], user("ignored"), 5, Some(c));
    assert_eq!(resumed.begin_turn(), 2);
    let p = resumed.take_resume_pending();
    assert_eq!(p.len(), 1);
    assert_eq!(p[0].id, "t2");
    assert!(resumed.take_resume_pending().is_empty());
}

#[test]
fn dispatch_failures_become_internal_tool_errors() {
    match forwarded_tool_result(Err("socket closed".into())) {
        Err(ToolError::Internal { message }) => assert_eq!(message, "dispatcher error: socket closed"),
        other => panic!("{other:?}"),
    }
    assert_eq!(
        forwarded_tool_result(Ok((None, Some(ToolBody::Json("{\"a\":1}".into()))))).unwrap(),
        (false, "{\"a\":1}".to_string())
    );
    match subflow_tool_result("Child", Err("no such agent".into())) {
        Err(ToolError::Internal { message }) => assert_eq!(message, "subflow recursion error: no such agent"),
        other => panic!("{other:?}"),
    }
    let done = RunOutcome::Completed {
        final_message: Message { id: "a".into(), timestamp_millis: 0, sender: Address::Agent(1), recipient: Address::User, payload: MessagePayload::Text { content: "fine".into() } },
        all_messages: vec![Message { id: "a".into(), timestamp_millis: 0, sender: Address::Agent(1), recipient: Address::User, payload: MessagePayload::Text { content: "fine".into() } }],
        total_turns: 1,
        token_usage: TokenUsage::default(),
    };
    assert_eq!(subflow_tool_result("Child", Ok(done)).unwrap(), (false, "fine".to_string()));
}
