use grok_tools::coordinator::types::{AgentMailboxIdentity, AgentMailboxMessageKind};
use grok_tools::json::JsonValue;
use grok_tools::native_agents::tools::{
    is_task_name, message, message_at, native_access, parse_fork_turns, plan_followup,
    plan_interrupt, plan_list, plan_send, plan_spawn, plan_wait, team_error, InterruptInput, ListInput,
    MessageInput, NativeAgentOperation, NativeAgentsEnabled, NativeTool, SpawnAgentInput,
    SubagentContextMode, WaitInput,
};
use grok_tools::native_agents::user_message::{
    AsyncUserMessagesEnabled, SendUserMessageAsyncInput, SendUserMessageAsyncTool,
};
use grok_tools::native_agents::wire::{
    codex_message_is_encrypted, decode_function_call_id, encode_function_call,
    private_function_arguments, restore_function_call, NativeMessageEncryption,
};

fn fields(v: &serde_json::Value) -> Vec<(String, JsonValue)> {
    v.as_object()
        .unwrap()
        .iter()
        .map(|(k, v)| (k.clone(), JsonValue { text: v.to_string() }))
        .collect()
}

fn value(fields: &[(String, JsonValue)]) -> serde_json::Value {
    let mut map = serde_json::Map::new();
    for (k, v) in fields {
        map.insert(k.clone(), serde_json::from_str(&v.text).unwrap());
    }
    serde_json::Value::Object(map)
}

fn parse(s: &str) -> serde_json::Value {
    serde_json::from_str(s).unwrap()
}

fn call_id(item: &[(String, JsonValue)]) -> String {
    value(item)["call_id"].as_str().unwrap().to_owned()
}

#[test]
fn native_agent_wire_metadata_round_trips_without_hiding_arguments_in_ids() {
    for encrypted in [None, Some("[]"), Some("[\"message\"]")] {
        let mut original = parse(
            r#"{"type":"function_call","call_id":"call_é","id":"fc_test","name":"send_message",
                "namespace":"collaboration",
                "arguments":"{\"target\":\"/root/worker\",\"message\":\"opaque-test-payload\"}"}"#,
        );
        if let Some(encrypted) = encrypted {
            original["encrypted_function_args"] = parse(encrypted);
        }
        let arguments = original["arguments"].as_str().unwrap().to_owned();
        let mut encoded = fields(&original);
        encode_function_call(&mut encoded);
        let id = call_id(&encoded);
        assert!(!id.contains("opaque-test-payload"));
        assert_eq!(decode_function_call_id(&id).unwrap().0, "call_é");
        assert_eq!(codex_message_is_encrypted(&id), encrypted != Some("[]"));
        let restored = restore_function_call(&id, "send_message", &arguments).unwrap();
        assert_eq!(value(&restored), original);
        encode_function_call(&mut encoded);
        let again = restore_function_call(&call_id(&encoded), "send_message", &arguments).unwrap();
        assert_eq!(value(&again), original);
    }
}

#[test]
fn native_agent_wire_rejects_malformed_id_and_preserves_public_arguments() {
    for malformed in [
        "",
        "__codex_function_call__99:short",
        "__codex_function_call__1:é{}",
        "__codex_function_call__1:a[]",
    ] {
        assert!(decode_function_call_id(malformed).is_none());
    }
    let mut call = fields(&parse(
        r#"{"type":"function_call","call_id":"call_read","name":"read_file","namespace":"functions","arguments":"{}"}"#,
    ));
    encode_function_call(&mut call);
    assert_eq!(call_id(&call), "call_read");
    assert!(!private_function_arguments(&call_id(&call), "read_file"));
}

#[test]
fn private_arguments_and_bad_arguments_are_told_apart() {
    let mut call = fields(&parse(
        r#"{"type":"function_call","call_id":"c","name":"read_file","encrypted_function_args":["x"],"arguments":"{}"}"#,
    ));
    encode_function_call(&mut call);
    let id = call_id(&call);
    assert!(private_function_arguments(&id, "read_file"));
    let restored = restore_function_call(&id, "read_file", "not json").unwrap();
    assert_eq!(value(&restored)["arguments"], "{}");
    let mut native = fields(&parse(r#"{"type":"function_call","call_id":"c","name":"list_agents","arguments":"{}"}"#));
    encode_function_call(&mut native);
    let id = call_id(&native);
    assert!(!private_function_arguments(&id, "list_agents"));
    assert!(private_function_arguments(&id, "spawn_agent"));
    let mut other = fields(&parse(r#"{"type":"message","call_id":"c","name":"spawn_agent"}"#));
    encode_function_call(&mut other);
    assert_eq!(call_id(&other), "c");
}

fn identity(agent: &str) -> AgentMailboxIdentity {
    AgentMailboxIdentity { team_scope_id: "team".to_owned(), agent_id: agent.to_owned() }
}

#[test]
fn native_agent_message_preserves_bytes_and_dispatch_encryption_context() {
    for encrypted in [None, Some(false), Some(true)] {
        let body = "  opaque-test-payload\n";
        let result = message(
            &identity("root"),
            body.to_owned(),
            AgentMailboxMessageKind::NativeMessage,
            encrypted.map(NativeMessageEncryption),
            "call_native",
        )
        .unwrap();
        assert_eq!(result.body, body);
        let suffix = result
            .message_id
            .strip_prefix("amsg_")
            .expect("native agent message IDs must use the Responses prefix");
        assert!(uuid::Uuid::parse_str(suffix).is_ok());
        assert_eq!(result.native.unwrap().encrypted, encrypted.unwrap_or(true));
        assert!(result.created_at_ms > 1_600_000_000_000);
    }
}

#[test]
fn native_agents_validate_fork_turns_and_reject_obsolete_parameters() {
    assert_eq!(parse_fork_turns(None).unwrap(), (SubagentContextMode::Fork, None));
    assert_eq!(parse_fork_turns(Some("none")).unwrap(), (SubagentContextMode::Fresh, None));
    assert_eq!(parse_fork_turns(Some("3")).unwrap(), (SubagentContextMode::Fork, Some(3)));
    for invalid in ["0", "-1", "1.5", "fresh", ""] {
        assert!(parse_fork_turns(Some(invalid)).is_err());
    }
}

#[test]
fn native_agents_require_host_opt_in_before_dispatch() {
    for flag in [None, Some(NativeAgentsEnabled(false))] {
        let result = native_access(flag, true, Some(identity("root")));
        assert!(result.unwrap_err().message.contains("not enabled"));
    }
    let on = Some(NativeAgentsEnabled(true));
    assert!(native_access(on, true, Some(identity("a"))).is_ok());
    assert_eq!(native_access(on, false, Some(identity("a"))).unwrap_err().message, "Subagent coordinator is unavailable");
    assert_eq!(native_access(on, true, None).unwrap_err().message, "Agent identity is unavailable");
}

fn spawn(task_name: &str, text: &str, turns: Option<&str>) -> SpawnAgentInput {
    SpawnAgentInput {
        task_name: task_name.to_owned(),
        message: text.to_owned(),
        agent_type: None,
        model: None,
        reasoning_effort: None,
        service_tier: None,
        fork_turns: turns.map(str::to_owned),
    }
}

#[test]
fn agents_start_with_good_names_and_messages() {
    let plan = plan_spawn(&identity("root"), spawn("worker_1", "go", Some("2")), None, "c").unwrap();
    assert_eq!(plan.task_name, "worker_1");
    assert_eq!(plan.subagent_type, "general-purpose");
    assert_eq!((plan.context, plan.fork_turns), (SubagentContextMode::Fork, Some(2)));
    assert_eq!(plan.message.kind, AgentMailboxMessageKind::NativeFollowup);
    for name in ["", "root", "Upper", "a-b", "é"] {
        assert!(!is_task_name(name));
        assert!(plan_spawn(&identity("root"), spawn(name, "go", None), None, "c").is_err());
    }
    assert!(!is_task_name(&"a".repeat(65)));
    assert!(is_task_name(&"a".repeat(64)));
    assert!(plan_spawn(&identity("root"), spawn("w", "  ", None), None, "c").is_err());
    let long = "x".repeat(32 * 1024 + 1);
    assert!(plan_spawn(&identity("root"), spawn("w", &long, None), None, "c").is_err());
    let err = plan_spawn(&identity("root"), spawn("w", "go", Some("x")), None, "c").unwrap_err();
    assert_eq!(err.message, "fork_turns must be none, all, or a positive integer string");
}

fn tell(text: &str) -> MessageInput {
    MessageInput { target: "/root/w".to_owned(), message: text.to_owned() }
}

#[test]
fn operations_carry_what_was_asked() {
    match plan_send(&identity("a"), tell("hi"), None, "c").unwrap() {
        NativeAgentOperation::Message { target, message } => {
            assert_eq!(target, "/root/w");
            assert_eq!(message.kind, AgentMailboxMessageKind::NativeMessage);
        }
        other => panic!("{other:?}"),
    }
    let prompt = |agent: &str| match plan_followup(&identity(agent), tell("hi"), None, "c", Some("p".into())).unwrap() {
        NativeAgentOperation::Message { message, .. } => message.native.unwrap().trigger_prompt_id,
        other => panic!("{other:?}"),
    };
    assert_eq!(prompt("team").as_deref(), Some("p"));
    assert_eq!(prompt("a"), None);
    assert!(plan_send(&identity("a"), tell(" "), None, "c").is_err());
    assert!(plan_followup(&identity("a"), tell(" "), None, "c", None).is_err());
    assert!(matches!(plan_wait(WaitInput { timeout_ms: None }), NativeAgentOperation::Wait { timeout_ms: 30_000 }));
    assert!(matches!(plan_wait(WaitInput { timeout_ms: Some(0) }), NativeAgentOperation::Wait { timeout_ms: 0 }));
    assert!(matches!(plan_list(ListInput { path_prefix: None }), NativeAgentOperation::List { path_prefix: None }));
    match plan_interrupt(InterruptInput { target: "t".into() }) {
        NativeAgentOperation::Interrupt { target } => assert_eq!(target, "t"),
        other => panic!("{other:?}"),
    }
    assert_eq!(team_error("gone").code, "agent_collaboration");
    let m = NativeTool::ListAgents.metadata();
    assert_eq!(m.id, "list_agents");
    assert!(m.read_only);
    assert!(!NativeTool::SpawnAgent.metadata().read_only);
}

#[test]
fn async_user_message_delivers_without_waiting_for_a_reply() {
    let tool = SendUserMessageAsyncTool;
    let input = SendUserMessageAsyncInput { message: "  Which option?  ".into() };
    let (message, output) =
        tool.prepare(&input, "call-message", Some(AsyncUserMessagesEnabled(true)), true).unwrap();
    assert!(output.accepted);
    assert_eq!(message.tool_call_id, "call-message");
    assert_eq!(message.message, "Which option?");
}

#[test]
fn async_user_message_requires_opt_in_and_delivery() {
    let tool = SendUserMessageAsyncTool;
    let input = SendUserMessageAsyncInput { message: "Question".into() };
    for enabled in [None, Some(AsyncUserMessagesEnabled(false))] {
        assert_eq!(tool.prepare(&input, "c", enabled, true).unwrap_err().code, "tool_unavailable");
    }
    let on = Some(AsyncUserMessagesEnabled(true));
    assert_eq!(tool.prepare(&input, "c", on, false).unwrap_err().code, "delivery_unavailable");
}

#[test]
fn async_user_message_rejects_empty_messages_and_unknown_fields() {
    let tool = SendUserMessageAsyncTool;
    let input = SendUserMessageAsyncInput { message: " \n\t ".into() };
    assert_eq!(tool.prepare(&input, "c", None, false).unwrap_err().code, "invalid_message");
    assert!(tool.metadata().read_only);
}

#[test]
fn a_message_has_the_id_and_the_time_that_it_is_made_with() {
    let kind = AgentMailboxMessageKind::NativeMessage;
    let m = message_at(&identity("a"), "hi".into(), kind, None, "call", "id-1", 77).unwrap();
    assert_eq!(m.message_id, "amsg_id-1");
    assert_eq!(m.created_at_ms, 77);
    assert_eq!(m.from_agent_id, "a");
    assert_eq!(m.body, "hi");
    assert!(message_at(&identity("a"), "\t".into(), kind, None, "call", "id-1", 77).is_err());
}
