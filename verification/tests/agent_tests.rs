use goose::agent::{
    Action, AgentEvent, AgentLoop, ErrorKind, LoopPhase, ModelOutput, ToolCallRequest,
};
use goose::args::ToolArguments;
use goose::conversation::Conversation;
use goose::message::{Content, Message, MessageContent, TextContent};
use goose::permission::{PermissionDecision, PermissionManager, PermissionMode};
use goose::registry::{ConnectionState, ExtensionHandle, ExtensionRegistry, ToolDef};

fn provider(name: &str, tool_names: Vec<&str>) -> ExtensionHandle {
    let tools = tool_names
        .into_iter()
        .map(|t| ToolDef {
            name: t.to_string(),
            description: format!("{} tool", t),
            params: Vec::new(),
            annotations: None,
        })
        .collect();
    ExtensionHandle {
        name: name.to_string(),
        tools,
        prompts: Vec::new(),
        resources: Vec::new(),
        instructions: String::new(),
        state: ConnectionState::Connected,
    }
}

fn url_args() -> ToolArguments {
    ToolArguments::from_entries(vec![(
        "url".to_string(),
        "https://example.com".to_string(),
    )])
}

fn start_conversation() -> Conversation {
    Conversation::new(vec![Message::user().with_text("fetch the page")])
}

fn dispatch_ids(actions: &[Action]) -> Vec<String> {
    actions
        .iter()
        .filter_map(|a| match a {
            Action::DispatchTool { id, .. } => Some(id.clone()),
            _ => None,
        })
        .collect()
}

fn has_call_model(actions: &[Action]) -> bool {
    actions.iter().any(|a| matches!(a, Action::CallModel))
}

#[test]
fn auto_mode_dispatches_without_confirmation() {
    // Registry has provider "fetch" with tool "get"; mode is auto.
    let mut registry = ExtensionRegistry::new();
    registry.add(provider("fetch", vec!["get"])).unwrap();
    let permissions = PermissionManager::new();

    let (mut agent, out) = AgentLoop::start(start_conversation(), PermissionMode::Auto);
    assert!(has_call_model(&out.actions));

    let req = ToolCallRequest {
        id: "call-1".to_string(),
        tool_name: "fetch__get".to_string(),
        arguments: url_args(),
    };
    let out = agent.on_model_output(
        ModelOutput::ToolRequests(vec![req]),
        &registry,
        &permissions,
    );

    // Immediate dispatch, no confirmation event.
    assert_eq!(dispatch_ids(&out.actions), vec!["call-1".to_string()]);
    assert!(!out
        .events
        .iter()
        .any(|e| matches!(e, AgentEvent::ToolConfirmationNeeded(_))));

    // The tool outcome produces exactly one response with the matching id.
    let out = agent.on_tool_result(
        &"call-1".to_string(),
        Ok(vec![Content::Text(TextContent {
            text: "page body".to_string(),
        })]),
    );
    assert!(has_call_model(&out.actions));
    let last = agent.conversation.messages.last().unwrap();
    match &last.content[0] {
        MessageContent::ToolResponse(res) => {
            assert_eq!(res.id, "call-1");
            assert!(res.tool_result.is_ok());
        }
        other => panic!("expected a tool response, got {:?}", other),
    }
    assert_eq!(agent.phase, LoopPhase::AwaitingModel);
}

#[test]
fn approve_mode_deny_never_dispatches() {
    // Same setup, mode approve: a confirmation is required before dispatch.
    let mut registry = ExtensionRegistry::new();
    registry.add(provider("fetch", vec!["get"])).unwrap();
    let permissions = PermissionManager::new();

    let (mut agent, _) = AgentLoop::start(start_conversation(), PermissionMode::Approve);
    let req = ToolCallRequest {
        id: "call-2".to_string(),
        tool_name: "fetch__get".to_string(),
        arguments: url_args(),
    };
    let out = agent.on_model_output(
        ModelOutput::ToolRequests(vec![req]),
        &registry,
        &permissions,
    );

    // A confirmation event is emitted before any dispatch.
    assert!(out.events.iter().any(|e| matches!(
        e,
        AgentEvent::ToolConfirmationNeeded(c) if c.id == "call-2"
    )));
    assert!(dispatch_ids(&out.actions).is_empty());

    // Denying yields an error tool response and never invokes the tool.
    let out2 = agent.on_confirmation(&"call-2".to_string(), false);
    assert!(dispatch_ids(&out2.actions).is_empty());
    let last = agent.conversation.messages.last().unwrap();
    match &last.content[0] {
        MessageContent::ToolResponse(res) => {
            assert_eq!(res.id, "call-2");
            assert!(res.tool_result.is_err());
        }
        other => panic!("expected a tool response, got {:?}", other),
    }
}

#[test]
fn approve_then_approve_dispatches() {
    let mut registry = ExtensionRegistry::new();
    registry.add(provider("fetch", vec!["get"])).unwrap();
    let permissions = PermissionManager::new();

    let (mut agent, _) = AgentLoop::start(start_conversation(), PermissionMode::Approve);
    let req = ToolCallRequest {
        id: "call-3".to_string(),
        tool_name: "fetch__get".to_string(),
        arguments: url_args(),
    };
    agent.on_model_output(
        ModelOutput::ToolRequests(vec![req]),
        &registry,
        &permissions,
    );
    let out = agent.on_confirmation(&"call-3".to_string(), true);
    assert_eq!(dispatch_ids(&out.actions), vec!["call-3".to_string()]);
    let out = agent.on_tool_result(&"call-3".to_string(), Ok(vec![]));
    assert!(has_call_model(&out.actions));
}

#[test]
fn two_providers_one_further_model_call() {
    // Two tool calls to two different providers under auto; both succeed.
    let mut registry = ExtensionRegistry::new();
    registry.add(provider("fetch", vec!["get"])).unwrap();
    registry.add(provider("files", vec!["read"])).unwrap();
    let permissions = PermissionManager::new();

    let (mut agent, _) = AgentLoop::start(start_conversation(), PermissionMode::Auto);
    let reqs = vec![
        ToolCallRequest {
            id: "a".to_string(),
            tool_name: "fetch__get".to_string(),
            arguments: url_args(),
        },
        ToolCallRequest {
            id: "b".to_string(),
            tool_name: "files__read".to_string(),
            arguments: ToolArguments::new(),
        },
    ];
    let out = agent.on_model_output(ModelOutput::ToolRequests(reqs), &registry, &permissions);
    assert_eq!(dispatch_ids(&out.actions).len(), 2);
    assert!(!has_call_model(&out.actions));

    // Results arrive in the opposite order; only the second one triggers
    // the next model call.
    let out1 = agent.on_tool_result(&"b".to_string(), Ok(vec![]));
    assert!(!has_call_model(&out1.actions));
    let out2 = agent.on_tool_result(&"a".to_string(), Ok(vec![]));
    let model_calls = out1
        .actions
        .iter()
        .chain(out2.actions.iter())
        .filter(|a| matches!(a, Action::CallModel))
        .count();
    assert_eq!(model_calls, 1);

    // Both responses are in the conversation, ids correct.
    let n = agent.conversation.messages.len();
    let mut answered: Vec<String> = Vec::new();
    for m in &agent.conversation.messages[n - 2..] {
        if let MessageContent::ToolResponse(res) = &m.content[0] {
            answered.push(res.id.clone());
        }
    }
    answered.sort();
    assert_eq!(answered, vec!["a".to_string(), "b".to_string()]);
}

#[test]
fn provider_failure_is_terminal_and_leaves_conversation() {
    let registry = ExtensionRegistry::new();
    let permissions = PermissionManager::new();
    let (mut agent, _) = AgentLoop::start(start_conversation(), PermissionMode::Auto);
    let before = agent.conversation.messages.len();

    let out = agent.on_model_output(
        ModelOutput::ProviderFailure("connection reset".to_string()),
        &registry,
        &permissions,
    );
    assert_eq!(out.events.len(), 1);
    match &out.events[0] {
        AgentEvent::Error { kind, detail } => {
            assert_eq!(*kind, ErrorKind::ProviderError);
            assert_eq!(detail, "connection reset");
        }
        other => panic!("expected an error event, got {:?}", other),
    }
    assert_eq!(agent.phase, LoopPhase::Finished);
    // No partial request is left behind: the conversation is unchanged.
    assert_eq!(agent.conversation.messages.len(), before);
}

#[test]
fn cancellation_while_awaiting_confirmation() {
    let mut registry = ExtensionRegistry::new();
    registry.add(provider("fetch", vec!["get"])).unwrap();
    let permissions = PermissionManager::new();

    let (mut agent, _) = AgentLoop::start(start_conversation(), PermissionMode::Approve);
    let before = agent.conversation.messages.len();
    let req = ToolCallRequest {
        id: "call-4".to_string(),
        tool_name: "fetch__get".to_string(),
        arguments: url_args(),
    };
    agent.on_model_output(
        ModelOutput::ToolRequests(vec![req]),
        &registry,
        &permissions,
    );
    assert_eq!(agent.phase, LoopPhase::AwaitingTools);

    let out = agent.cancel();
    // A single terminal cancellation event; the conversation rolls back to
    // the last fully-resolved turn.
    assert_eq!(out.events.len(), 1);
    assert!(matches!(out.events[0], AgentEvent::Cancelled));
    assert!(out.actions.is_empty());
    assert_eq!(agent.phase, LoopPhase::Finished);
    assert_eq!(agent.conversation.messages.len(), before);
}

#[test]
fn unknown_tool_gets_error_response() {
    let registry = ExtensionRegistry::new();
    let permissions = PermissionManager::new();
    let (mut agent, _) = AgentLoop::start(start_conversation(), PermissionMode::Auto);
    let req = ToolCallRequest {
        id: "nope".to_string(),
        tool_name: "missing__tool".to_string(),
        arguments: ToolArguments::new(),
    };
    let out = agent.on_model_output(
        ModelOutput::ToolRequests(vec![req]),
        &registry,
        &permissions,
    );
    // The turn resolves immediately with a synthetic error response.
    assert!(has_call_model(&out.actions));
    assert!(dispatch_ids(&out.actions).is_empty());
    let last = agent.conversation.messages.last().unwrap();
    match &last.content[0] {
        MessageContent::ToolResponse(res) => {
            assert_eq!(res.id, "nope");
            assert!(res.tool_result.is_err());
        }
        other => panic!("expected a tool response, got {:?}", other),
    }
}

#[test]
fn never_permission_denies_by_policy() {
    let mut registry = ExtensionRegistry::new();
    registry.add(provider("fetch", vec!["get"])).unwrap();
    let mut permissions = PermissionManager::new();
    permissions.set_override("fetch__get".to_string(), PermissionDecision::Never);

    let (mut agent, _) = AgentLoop::start(start_conversation(), PermissionMode::Auto);
    let req = ToolCallRequest {
        id: "call-5".to_string(),
        tool_name: "fetch__get".to_string(),
        arguments: url_args(),
    };
    let out = agent.on_model_output(
        ModelOutput::ToolRequests(vec![req]),
        &registry,
        &permissions,
    );
    assert!(dispatch_ids(&out.actions).is_empty());
    let last = agent.conversation.messages.last().unwrap();
    match &last.content[0] {
        MessageContent::ToolResponse(res) => {
            assert_eq!(res.id, "call-5");
            assert!(res.tool_result.is_err());
        }
        other => panic!("expected a tool response, got {:?}", other),
    }
}

#[test]
fn final_message_ends_invocation() {
    let registry = ExtensionRegistry::new();
    let permissions = PermissionManager::new();
    let (mut agent, _) = AgentLoop::start(start_conversation(), PermissionMode::Auto);
    let final_msg = Message::assistant().with_text("done");
    let out = agent.on_model_output(ModelOutput::Final(final_msg), &registry, &permissions);
    assert_eq!(out.events.len(), 1);
    match &out.events[0] {
        AgentEvent::Message(m) => assert_eq!(m.as_concat_text(), "done"),
        other => panic!("expected a message event, got {:?}", other),
    }
    assert_eq!(agent.phase, LoopPhase::Finished);
}

#[test]
fn context_overflow_appends_notice() {
    let registry = ExtensionRegistry::new();
    let permissions = PermissionManager::new();
    let (mut agent, _) = AgentLoop::start(start_conversation(), PermissionMode::Auto);
    let out = agent.on_model_output(
        ModelOutput::ContextOverflow("too long".to_string()),
        &registry,
        &permissions,
    );
    assert_eq!(out.events.len(), 1);
    let last = agent.conversation.messages.last().unwrap();
    match &last.content[0] {
        MessageContent::ContextLengthExceeded(c) => assert_eq!(c.msg, "too long"),
        other => panic!("expected a context-length item, got {:?}", other),
    }
    assert_eq!(agent.phase, LoopPhase::Finished);
}
