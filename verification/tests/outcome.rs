use tau_runtime_core::message::{Address, Message, MessagePayload};
use tau_runtime_core::options::TokenUsage;
use tau_runtime_core::outcome::{AgentStatus, RunOutcome};

fn any_message() -> Message {
    Message {
        id: "m-1".into(),
        timestamp_millis: 0,
        sender: Address::Agent(1),
        recipient: Address::User,
        payload: MessagePayload::Text { content: "hello".into() },
    }
}

#[test]
fn run_outcome_failed_carries_status_and_messages() {
    let outcome = RunOutcome::Failed {
        status: AgentStatus::Stopped,
        all_messages: vec![],
        total_turns: 3,
        token_usage: TokenUsage::default(),
    };
    let RunOutcome::Failed { status, total_turns, .. } = outcome.clone() else {
        panic!("expected Failed, got {outcome:?}");
    };
    assert_eq!(status, AgentStatus::Stopped);
    assert_eq!(total_turns, 3);
}

#[test]
fn run_outcome_failed_preserves_token_usage() {
    let usage = TokenUsage { input_tokens: 10, output_tokens: 5, total_tokens: Some(15) };
    let outcome = RunOutcome::Failed {
        status: AgentStatus::Stopped,
        all_messages: vec![],
        total_turns: 16,
        token_usage: usage,
    };
    let RunOutcome::Failed { total_turns, token_usage, .. } = outcome.clone() else {
        panic!("expected Failed, got {outcome:?}");
    };
    assert_eq!(total_turns, 16);
    assert_eq!(token_usage.input_tokens, 10);
    assert_eq!(token_usage.output_tokens, 5);
    assert_eq!(token_usage.total_tokens, Some(15));
}

#[test]
fn run_outcome_completed_construction() {
    let msg = any_message();
    let outcome = RunOutcome::Completed {
        final_message: msg.clone(),
        all_messages: vec![msg.clone()],
        total_turns: 2,
        token_usage: TokenUsage::default(),
    };
    let RunOutcome::Completed { total_turns, all_messages, .. } = outcome.clone() else {
        panic!("expected Completed, got {outcome:?}");
    };
    assert_eq!(total_turns, 2);
    assert_eq!(all_messages.len(), 1);
}
