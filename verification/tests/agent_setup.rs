use tau_runtime_core::agent_setup::{
    agent_max_turns, agent_system_prompt, agent_tool_bindings, placeholder_message,
    runtime_build_failed, split_history, user_message, PromptSource,
};
use tau_runtime_core::error::{BuildError, RuntimeError};
use tau_runtime_core::message::{Address, Message, MessagePayload};

fn internal(e: RuntimeError) -> String {
    match e {
        RuntimeError::Internal { message } => message,
        other => panic!("unexpected {other:?}"),
    }
}

fn user(c: &str) -> Message {
    Message {
        id: c.into(),
        timestamp_millis: 0,
        sender: Address::User,
        recipient: Address::Agent(1),
        payload: MessagePayload::Text { content: c.into() },
    }
}

#[test]
fn max_turns_defaults_to_sixteen() {
    assert_eq!(agent_max_turns(None), 16);
    assert_eq!(agent_max_turns(Some(1)), 1);
}

#[test]
fn tool_bindings_use_module_tool_names_in_ref_order() {
    let tools = vec![("t-echo".to_string(), "echo".to_string()), ("t-read".to_string(), "file_read".to_string())];
    let refs = vec!["t-read".to_string(), "t-echo".to_string()];
    let b = agent_tool_bindings("worker", &refs, &tools).unwrap();
    assert_eq!(
        b,
        vec![
            ("file_read".to_string(), "t-read".to_string()),
            ("echo".to_string(), "t-echo".to_string())
        ]
    );
    assert!(agent_tool_bindings("worker", &vec![], &tools).unwrap().is_empty());
}

#[test]
fn tool_ref_missing_from_module_is_internal_error() {
    let tools = vec![("t-echo".to_string(), "echo".to_string())];
    let refs = vec!["t-echo".to_string(), "ghost".to_string(), "other".to_string()];
    let e = agent_tool_bindings("worker", &refs, &tools).unwrap_err();
    assert_eq!(internal(e), "agent \"worker\" references tool \"ghost\" not in workflow.tools");
}

#[test]
fn inline_prompt_is_its_text() {
    let p = agent_system_prompt("a", &PromptSource::Inline("be brief".into()), None).unwrap();
    assert_eq!(p, "be brief");
}

#[test]
fn asset_prompt_resolves_from_asset_store() {
    let store = vec![("h1".to_string(), b"from asset".to_vec())];
    let p = agent_system_prompt("a", &PromptSource::Asset("h1".into()), Some(&store)).unwrap();
    assert_eq!(p, "from asset");
}

#[test]
fn asset_prompt_errors() {
    let e = agent_system_prompt("a", &PromptSource::Asset("h1".into()), None).unwrap_err();
    assert_eq!(
        internal(e),
        "agent \"a\": prompt references asset \"h1\" but the host supplied no asset store"
    );
    let store = vec![("h2".to_string(), b"x".to_vec())];
    let e = agent_system_prompt("a", &PromptSource::Asset("h1".into()), Some(&store)).unwrap_err();
    assert_eq!(internal(e), "agent \"a\": prompt asset \"h1\" not found in the bundle asset store");
    let store = vec![("h1".to_string(), vec![0xff, 0xfe])];
    let e = agent_system_prompt("a", &PromptSource::Asset("h1".into()), Some(&store)).unwrap_err();
    assert_eq!(internal(e), "agent \"a\": prompt asset \"h1\" is not valid UTF-8");
}

#[test]
fn build_failure_names_agent_and_cause() {
    let e = runtime_build_failed("w", &BuildError::NoLlmBackend);
    assert_eq!(
        internal(e),
        "failed to build Runtime for IR agent \"w\": no LLM backends registered; at least one is required"
    );
}

#[test]
fn split_history_takes_last_as_opening_message() {
    assert!(split_history(vec![]).is_none());
    let (h, last) = split_history(vec![user("a"), user("b"), user("c")]).unwrap();
    assert_eq!(h, vec![user("a"), user("b")]);
    assert_eq!(last, user("c"));
    let (h, last) = split_history(vec![user("only")]).unwrap();
    assert!(h.is_empty());
    assert_eq!(last, user("only"));
}

#[test]
fn placeholder_is_empty_user_text_to_system() {
    let m = placeholder_message("m-1".into(), 5);
    assert_eq!(m.id, "m-1");
    assert_eq!(m.timestamp_millis, 5);
    assert_eq!(m.sender, Address::User);
    assert_eq!(m.recipient, Address::System);
    assert_eq!(m.payload, MessagePayload::Text { content: String::new() });
}

#[test]
fn user_message_addresses_the_agent() {
    let m = user_message("m-2".into(), 9, 77, "do it");
    assert_eq!(m.sender, Address::User);
    assert_eq!(m.recipient, Address::Agent(77));
    assert_eq!(m.payload, MessagePayload::Text { content: "do it".into() });
    assert_eq!(m.id, "m-2");
}
