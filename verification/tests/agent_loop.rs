use tau_runtime_core::agent_run::{
    agent_loop_step, AgentRun, Checkpoint, LoopAction, LoopContext, LoopEvent, LoopPhase, Stamp,
    StopReason, ToolUse, TurnUsage, VirtualKind,
};
use tau_runtime_core::capability::{Capability, NetCapability, NetHosts};
use tau_runtime_core::error::ToolError;
use tau_runtime_core::message::{Address, Message, MessagePayload};
use tau_runtime_core::outcome::{AgentStatus, FailureKind, RunOutcome};
use tau_runtime_core::provider::ToolContent;

fn user(c: &str) -> Message {
    Message {
        id: "u".into(),
        timestamp_millis: 0,
        sender: Address::User,
        recipient: Address::Agent(7),
        payload: MessagePayload::Text { content: c.into() },
    }
}

fn ctx(granted: Vec<Capability>, orchestrated: bool) -> LoopContext {
    LoopContext { agent_id: "a1".into(), package_id: "pkg".into(), agent: 7, granted, orchestrated }
}

fn stamp(id: &str) -> Stamp {
    Stamp { id: id.into(), timestamp_millis: 1 }
}

fn net() -> Capability {
    Capability::Network(NetCapability::Http { hosts: NetHosts::Any, methods: vec![] })
}

fn tool_use(id: &str, name: &str) -> ToolUse {
    ToolUse { id: id.into(), name: name.into(), input: "{}".into() }
}

fn finish() -> LoopEvent {
    LoopEvent::Finish { stop: None, usage: Some(TurnUsage { input_tokens: 3, output_tokens: 2 }), stamp: stamp("m-a") }
}

fn resolved(registered: bool, virtual_tool: bool, required: Vec<Capability>) -> LoopEvent {
    LoopEvent::Resolved {
        virtual_tool,
        registered,
        registered_names: vec!["echo".into()],
        required,
        stamp: stamp("m-call"),
    }
}

fn started(max_turns: u32, c: LoopContext) -> AgentRun {
    let mut run = AgentRun::start(vec![], user("go"), max_turns, None);
    assert!(matches!(agent_loop_step(&mut run, LoopEvent::Begin(c)), LoopAction::RunStarted));
    run
}

#[test]
fn text_only_turn_completes_the_run() {
    let mut run = started(4, ctx(vec![], false));
    assert!(matches!(agent_loop_step(&mut run, LoopEvent::Proceed), LoopAction::CallLlm));
    match agent_loop_step(&mut run, LoopEvent::Text("hel".into())) {
        LoopAction::TextDelta(d) => assert_eq!(d, "hel"),
        other => panic!("{other:?}"),
    }
    agent_loop_step(&mut run, LoopEvent::Text("lo".into()));
    match agent_loop_step(&mut run, finish()) {
        LoopAction::InferenceCallCompleted { stop, tokens_in, tokens_out } => {
            assert_eq!(stop, StopReason::EndTurn);
            assert_eq!((tokens_in, tokens_out), (3, 2));
        }
        other => panic!("{other:?}"),
    }
    match agent_loop_step(&mut run, LoopEvent::Proceed) {
        LoopAction::TurnCompleted { stop, turn, checkpoint, .. } => {
            assert_eq!(stop, StopReason::EndTurn);
            assert_eq!(turn, 1);
            assert_eq!(checkpoint.history.len(), 2);
            assert!(checkpoint.pending_tool_uses.is_empty());
        }
        other => panic!("{other:?}"),
    }
    match agent_loop_step(&mut run, LoopEvent::Proceed) {
        LoopAction::RunCompleted(RunOutcome::Completed { final_message, total_turns, token_usage, .. }) => {
            assert_eq!(final_message.payload, MessagePayload::Text { content: "hello".into() });
            assert_eq!(final_message.sender, Address::Agent(7));
            assert_eq!(total_turns, 1);
            assert_eq!(token_usage.input_tokens, 3);
        }
        other => panic!("{other:?}"),
    }
    assert!(matches!(agent_loop_step(&mut run, LoopEvent::Proceed), LoopAction::Idle));
    assert_eq!(run.phase, LoopPhase::Done);
}

#[test]
fn tool_turn_dispatches_then_loops() {
    let mut run = started(4, ctx(vec![net()], false));
    agent_loop_step(&mut run, LoopEvent::Proceed);
    match agent_loop_step(&mut run, LoopEvent::ToolUseChunk(tool_use("t1", "echo"))) {
        LoopAction::ToolCallStarted { id, name, .. } => assert_eq!((id.as_str(), name.as_str()), ("t1", "echo")),
        other => panic!("{other:?}"),
    }
    agent_loop_step(&mut run, finish());
    assert!(matches!(agent_loop_step(&mut run, LoopEvent::Proceed), LoopAction::Resolve { .. }));
    assert!(matches!(agent_loop_step(&mut run, resolved(true, false, vec![net()])), LoopAction::OpenSession { .. }));
    assert!(matches!(agent_loop_step(&mut run, LoopEvent::SessionOpened), LoopAction::Validate { .. }));
    assert!(matches!(agent_loop_step(&mut run, LoopEvent::ValidationOk), LoopAction::Invoke { .. }));
    let done = LoopEvent::ToolDone {
        is_error: false,
        content: vec![ToolContent::Text { text: "ok".into() }],
        stamp: stamp("m-res"),
    };
    match agent_loop_step(&mut run, done) {
        LoopAction::ToolCallCompleted { id, result, checkpoint, .. } => {
            assert_eq!(id, "t1");
            assert_eq!(result, Ok(false));
            assert!(checkpoint.unwrap().pending_tool_uses.is_empty());
        }
        other => panic!("{other:?}"),
    }
    let n = run.messages.len();
    assert_eq!(run.messages[n - 2].payload, MessagePayload::ToolCall { args: "{}".into() });
    assert_eq!(run.messages[n - 1].payload, MessagePayload::ToolResult { body: "{\"content\":[\"ok\"]}".into() });
    match agent_loop_step(&mut run, LoopEvent::Proceed) {
        LoopAction::TurnCompleted { stop, .. } => assert_eq!(stop, StopReason::ToolUse),
        other => panic!("{other:?}"),
    }
    assert!(matches!(agent_loop_step(&mut run, LoopEvent::Proceed), LoopAction::CallLlm));
    assert_eq!(run.total_turns, 2);
}

#[test]
fn capability_denial_ends_run_without_calling_tool() {
    let mut run = started(4, ctx(vec![], false));
    agent_loop_step(&mut run, LoopEvent::Proceed);
    agent_loop_step(&mut run, LoopEvent::ToolUseChunk(tool_use("t1", "fetch")));
    agent_loop_step(&mut run, finish());
    agent_loop_step(&mut run, LoopEvent::Proceed);
    match agent_loop_step(&mut run, resolved(true, false, vec![net()])) {
        LoopAction::RunCompleted(RunOutcome::Failed { status: AgentStatus::Failed { kind, detail }, .. }) => {
            assert_eq!(kind, FailureKind::PolicyDenied);
            let d = detail.unwrap();
            assert!(d.contains("a1") && d.contains("net.http") && d.contains("fetch"), "{d}");
        }
        other => panic!("{other:?}"),
    }
    assert!(matches!(agent_loop_step(&mut run, LoopEvent::SessionOpened), LoopAction::Idle));
}

#[test]
fn validation_failure_is_recorded_and_run_goes_on() {
    let mut run = started(4, ctx(vec![], false));
    agent_loop_step(&mut run, LoopEvent::Proceed);
    agent_loop_step(&mut run, LoopEvent::ToolUseChunk(tool_use("t1", "echo")));
    agent_loop_step(&mut run, LoopEvent::ToolUseChunk(tool_use("t2", "echo")));
    agent_loop_step(&mut run, finish());
    agent_loop_step(&mut run, LoopEvent::Proceed);
    agent_loop_step(&mut run, resolved(true, false, vec![]));
    agent_loop_step(&mut run, LoopEvent::SessionOpened);
    let failed = LoopEvent::ValidationFailed { reason: "bad".into(), stamp: stamp("m-v") };
    match agent_loop_step(&mut run, failed) {
        LoopAction::ToolCallCompleted { id, result, checkpoint, .. } => {
            assert_eq!(id, "t1");
            assert_eq!(result, Err("bad".to_string()));
            assert!(checkpoint.is_none());
        }
        other => panic!("{other:?}"),
    }
    match &run.messages.last().unwrap().payload {
        MessagePayload::ToolError { kind, message, details } => {
            assert_eq!(kind, "tool_args_validation");
            assert_eq!(message, "bad");
            assert!(details.is_none());
        }
        other => panic!("{other:?}"),
    }
    match agent_loop_step(&mut run, LoopEvent::Proceed) {
        LoopAction::Resolve { name } => assert_eq!(name, "echo"),
        other => panic!("{other:?}"),
    }
}

#[test]
fn unregistered_tool_and_tool_failure_are_fatal() {
    let mut run = started(4, ctx(vec![], false));
    agent_loop_step(&mut run, LoopEvent::Proceed);
    agent_loop_step(&mut run, LoopEvent::ToolUseChunk(tool_use("t1", "ghost")));
    agent_loop_step(&mut run, finish());
    agent_loop_step(&mut run, LoopEvent::Proceed);
    match agent_loop_step(&mut run, resolved(false, false, vec![])) {
        LoopAction::Fatal(ev) => {
            assert_eq!(ev.kind, "ToolNotRegistered");
            assert_eq!(ev.detail, "tool `ghost` not registered; registered: [\"echo\"]");
        }
        other => panic!("{other:?}"),
    }

    let mut run = started(4, ctx(vec![], false));
    agent_loop_step(&mut run, LoopEvent::Proceed);
    agent_loop_step(&mut run, LoopEvent::ToolUseChunk(tool_use("t1", "echo")));
    agent_loop_step(&mut run, finish());
    agent_loop_step(&mut run, LoopEvent::Proceed);
    agent_loop_step(&mut run, resolved(true, false, vec![]));
    agent_loop_step(&mut run, LoopEvent::SessionOpened);
    agent_loop_step(&mut run, LoopEvent::ValidationOk);
    let failed = LoopEvent::ToolFailed { error: ToolError::SessionDead { reason: "gone".into() } };
    match agent_loop_step(&mut run, failed) {
        LoopAction::Fatal(ev) => {
            assert_eq!(ev.kind, "Tool");
            assert_eq!(ev.detail, "session dead: gone");
            assert_eq!(ev.tool_error_variant.as_deref(), Some("SessionDead"));
        }
        other => panic!("{other:?}"),
    }
}

#[test]
fn llm_error_is_fatal() {
    let mut run = started(4, ctx(vec![], false));
    agent_loop_step(&mut run, LoopEvent::Proceed);
    match agent_loop_step(&mut run, LoopEvent::LlmOpenFailed("down".into())) {
        LoopAction::Fatal(ev) => assert_eq!((ev.kind.as_str(), ev.detail.as_str()), ("Llm", "down")),
        other => panic!("{other:?}"),
    }
}

#[test]
fn zero_max_turns_fails_out_of_resources() {
    let mut run = started(0, ctx(vec![], false));
    match agent_loop_step(&mut run, LoopEvent::Proceed) {
        LoopAction::RunCompleted(RunOutcome::Failed { status: AgentStatus::Failed { kind, detail }, .. }) => {
            assert_eq!(kind, FailureKind::OutOfResources);
            assert_eq!(detail.unwrap(), "max_turns (0) reached");
        }
        other => panic!("{other:?}"),
    }
}

#[test]
fn orchestrated_run_checks_budget_and_routes_virtual_tools() {
    let mut run = started(4, ctx(vec![], true));
    assert!(matches!(agent_loop_step(&mut run, LoopEvent::Proceed), LoopAction::CheckBudget));
    match agent_loop_step(&mut run, LoopEvent::BudgetBreached("tokens 15 > 10".into())) {
        LoopAction::RunCompleted(RunOutcome::Failed { status: AgentStatus::Failed { kind, detail }, .. }) => {
            assert_eq!(kind, FailureKind::OutOfResources);
            assert_eq!(detail.unwrap(), "run budget exceeded: tokens 15 > 10");
        }
        other => panic!("{other:?}"),
    }

    let mut run = started(4, ctx(vec![], true));
    agent_loop_step(&mut run, LoopEvent::Proceed);
    assert!(matches!(agent_loop_step(&mut run, LoopEvent::BudgetOk), LoopAction::CallLlm));
    agent_loop_step(&mut run, LoopEvent::ToolUseChunk(tool_use("t1", "agent.researcher.spawn")));
    agent_loop_step(&mut run, LoopEvent::ToolUseChunk(tool_use("t2", "skill.critic.spawn")));
    agent_loop_step(&mut run, finish());
    agent_loop_step(&mut run, LoopEvent::Proceed);
    match agent_loop_step(&mut run, resolved(false, true, vec![])) {
        LoopAction::RunVirtual { kind, name, .. } => {
            assert_eq!(kind, VirtualKind::AgentSpawn);
            assert_eq!(name, "agent.researcher.spawn");
        }
        other => panic!("{other:?}"),
    }
    let done = LoopEvent::VirtualDone {
        is_error: true,
        content: vec![ToolContent::Text { text: "spawn denied".into() }],
        stamp: stamp("m-r"),
    };
    assert!(matches!(agent_loop_step(&mut run, done), LoopAction::ToolCallCompleted { result: Ok(true), .. }));
    match &run.messages.last().unwrap().payload {
        MessagePayload::ToolError { kind, message, .. } => {
            assert_eq!(kind, "orchestration_virtual_tool_error");
            assert_eq!(message, "spawn denied");
        }
        other => panic!("{other:?}"),
    }
    agent_loop_step(&mut run, LoopEvent::Proceed);
    match agent_loop_step(&mut run, resolved(false, true, vec![])) {
        LoopAction::RunVirtual { kind, .. } => assert_eq!(kind, VirtualKind::SkillSpawn),
        other => panic!("{other:?}"),
    }
}

#[test]
fn mid_turn_resume_reannounces_pending_tools() {
    let c = Checkpoint {
        turn: 2,
        history: vec![user("go")],
        input_tokens: 5,
        output_tokens: 1,
        pending_tool_uses: vec![tool_use("t2", "echo"), tool_use("t3", "echo")],
    };
    let mut run = AgentRun::start(vec![], user("ignored"), 4, Some(c));
    agent_loop_step(&mut run, LoopEvent::Begin(ctx(vec![], false)));
    match agent_loop_step(&mut run, LoopEvent::Proceed) {
        LoopAction::ToolCallStarted { id, .. } => assert_eq!(id, "t2"),
        other => panic!("{other:?}"),
    }
    assert_eq!(run.total_turns, 2);
    match agent_loop_step(&mut run, LoopEvent::Proceed) {
        LoopAction::ToolCallStarted { id, .. } => assert_eq!(id, "t3"),
        other => panic!("{other:?}"),
    }
    match agent_loop_step(&mut run, LoopEvent::Proceed) {
        LoopAction::Resolve { name } => assert_eq!(name, "echo"),
        other => panic!("{other:?}"),
    }
}

#[test]
fn unexpected_event_changes_nothing() {
    let mut run = started(4, ctx(vec![], false));
    assert!(matches!(agent_loop_step(&mut run, LoopEvent::SessionOpened), LoopAction::Idle));
    assert_eq!(run.phase, LoopPhase::Boundary);
}

#[test]
fn tool_using_turns_end_out_of_resources_at_the_limit() {
    let n: u32 = 2;
    let mut run = started(n, ctx(vec![net()], false));
    let mut completed = 0;
    for turn in 1..=n {
        assert!(matches!(agent_loop_step(&mut run, LoopEvent::Proceed), LoopAction::CallLlm));
        agent_loop_step(&mut run, LoopEvent::ToolUseChunk(tool_use("t", "echo")));
        agent_loop_step(&mut run, finish());
        agent_loop_step(&mut run, LoopEvent::Proceed);
        agent_loop_step(&mut run, resolved(true, false, vec![net()]));
        agent_loop_step(&mut run, LoopEvent::SessionOpened);
        agent_loop_step(&mut run, LoopEvent::ValidationOk);
        let done = LoopEvent::ToolDone { is_error: false, content: vec![], stamp: stamp("r") };
        agent_loop_step(&mut run, done);
        match agent_loop_step(&mut run, LoopEvent::Proceed) {
            LoopAction::TurnCompleted { turn: t, .. } => {
                assert_eq!(t, turn);
                completed += 1;
            }
            other => panic!("{other:?}"),
        }
    }
    assert_eq!(completed, n);
    match agent_loop_step(&mut run, LoopEvent::Proceed) {
        LoopAction::RunCompleted(RunOutcome::Failed { status: AgentStatus::Failed { kind, .. }, total_turns, .. }) => {
            assert_eq!(kind, FailureKind::OutOfResources);
            assert_eq!(total_turns, n);
        }
        other => panic!("{other:?}"),
    }
}
