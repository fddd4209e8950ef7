use goose::args::ToolArguments;
use goose::bench::{BlogSummary, EvalMetricValue};
use goose::conversation::Conversation;
use goose::keys::{
    check_provider_configured, inspect_key, inspect_keys, ConfigKey, ConfigSnapshot, KeyLocation,
    KeyLookup, ProviderMetadata,
};
use goose::message::{Message, MessageContent, ToolCall};
use goose::permission::{PermissionDecision, PermissionManager, PermissionMode};
use goose::registry::{
    interpret_dispatch, ConnectionState, DispatchOutcome, ExtensionHandle, ExtensionRegistry,
    ParamDef, RegistryError, ToolDef,
};
use goose::routes::{get_tools_info, select_model, verify_secret_key, AuthError, ConfiguredMode};
use goose::selector::{SelectionStrategy, ToolSelector};
use goose::strutil::{i64_to_string, u64_to_string};
use goose::tts::{TtsAction, UkrainianTTSRouter};
use goose::tutorial::{TutorialFile, TutorialRouter};

fn tool(name: &str) -> ToolDef {
    ToolDef {
        name: name.to_string(),
        description: format!("{} tool", name),
        params: vec![ParamDef {
            name: "input".to_string(),
            description: "the input".to_string(),
            required: true,
            default: None,
        }],
        annotations: None,
    }
}

fn ext(name: &str, tools: Vec<&str>) -> ExtensionHandle {
    ExtensionHandle {
        name: name.to_string(),
        tools: tools.into_iter().map(tool).collect(),
        prompts: Vec::new(),
        resources: Vec::new(),
        instructions: String::new(),
        state: ConnectionState::Connected,
    }
}

#[test]
fn decide_is_pure_and_override_is_local() {
    let mut pm = PermissionManager::new();
    let shell = "developer__shell".to_string();
    let read = "developer__read".to_string();

    // Two calls with unchanged overrides and mode yield the same result.
    let first = pm.decide(&shell, PermissionMode::Approve);
    let second = pm.decide(&shell, PermissionMode::Approve);
    assert_eq!(first, second);
    assert_eq!(first, PermissionDecision::AskBefore);
    assert_eq!(pm.decide(&shell, PermissionMode::Auto), PermissionDecision::Auto);

    // Setting an override changes only subsequent decisions for that tool.
    let read_before = pm.decide(&read, PermissionMode::Auto);
    pm.set_override(shell.clone(), PermissionDecision::Never);
    assert_eq!(pm.decide(&shell, PermissionMode::Auto), PermissionDecision::Never);
    assert_eq!(pm.decide(&shell, PermissionMode::Approve), PermissionDecision::Never);
    assert_eq!(pm.decide(&read, PermissionMode::Auto), read_before);
}

#[test]
fn clearing_an_override_restores_the_default() {
    let mut pm = PermissionManager::new();
    let shell = "developer__shell".to_string();
    pm.set_override(shell.clone(), PermissionDecision::Never);
    pm.set_override("developer__read".to_string(), PermissionDecision::Auto);
    assert_eq!(pm.decide(&shell, PermissionMode::Auto), PermissionDecision::Never);

    pm.clear_override(&shell);
    assert_eq!(pm.decide(&shell, PermissionMode::Auto), PermissionDecision::Auto);
    assert_eq!(
        pm.decide(&"developer__read".to_string(), PermissionMode::Approve),
        PermissionDecision::Auto
    );
}

#[test]
fn smart_approve_uses_heuristic_default() {
    let pm = PermissionManager::with_smart_defaults(vec![(
        "developer__shell".to_string(),
        PermissionDecision::Auto,
    )]);
    assert_eq!(
        pm.decide(&"developer__shell".to_string(), PermissionMode::SmartApprove),
        PermissionDecision::Auto
    );
    assert_eq!(
        pm.decide(&"developer__other".to_string(), PermissionMode::SmartApprove),
        PermissionDecision::AskBefore
    );
}

#[test]
fn registry_rejects_duplicate_names() {
    let mut registry = ExtensionRegistry::new();
    assert!(registry.add(ext("fetch", vec!["get"])).is_ok());
    assert_eq!(
        registry.add(ext("fetch", vec!["post"])),
        Err(RegistryError::DuplicateName)
    );
    assert!(registry.remove(&"fetch".to_string()));
    assert!(!registry.remove(&"fetch".to_string()));
    assert!(registry.add(ext("fetch", vec!["post"])).is_ok());
}

#[test]
fn registry_lists_tools_sorted_and_resolves() {
    let mut registry = ExtensionRegistry::new();
    registry.add(ext("zeta", vec!["b", "a"])).unwrap();
    registry.add(ext("alpha", vec!["z"])).unwrap();

    let listed = registry.list_tools(None);
    let ids: Vec<String> = listed.iter().map(|t| t.id.clone()).collect();
    assert_eq!(
        ids,
        vec![
            "alpha__z".to_string(),
            "zeta__a".to_string(),
            "zeta__b".to_string()
        ]
    );

    let filtered = registry.list_tools(Some(&"zeta".to_string()));
    assert_eq!(filtered.len(), 2);

    let target = registry.resolve(&"zeta__a".to_string()).unwrap();
    assert_eq!(target.0, "zeta");
    assert_eq!(target.1, "a");
    assert_eq!(
        registry.resolve(&"zeta__missing".to_string()),
        Err(RegistryError::NotFound)
    );
}

#[test]
fn transport_failure_becomes_tool_error() {
    let ok = interpret_dispatch(DispatchOutcome::Reply(Ok(vec![])));
    assert!(ok.is_ok());
    let err = interpret_dispatch(DispatchOutcome::TransportFailure("pipe closed".to_string()));
    match err {
        Err(e) => assert_eq!(e.message, "provider unavailable: pipe closed"),
        Ok(_) => panic!("expected an error result"),
    }
}

#[test]
fn ranked_selection_never_drops_referenced_tool() {
    let mut registry = ExtensionRegistry::new();
    registry.add(ext("fetch", vec!["get"])).unwrap();
    registry.add(ext("files", vec!["read"])).unwrap();
    let tools = registry.list_tools(None);

    // An unresolved request referencing fetch__get sits in the history.
    let conversation = Conversation::new(vec![Message::assistant().with_tool_request(
        "r1".to_string(),
        Ok(ToolCall {
            name: "fetch__get".to_string(),
            arguments: ToolArguments::new(),
        }),
    )]);

    // Even with a budget of zero, the referenced tool is kept.
    let selector = ToolSelector::new(SelectionStrategy::Ranked { k: 0 });
    let selected = selector.select(&tools, &conversation);
    assert!(selected.iter().any(|t| t.id == "fetch__get"));
    assert!(!selected.iter().any(|t| t.id == "files__read"));

    // Once the request is answered, nothing forces the tool in any more.
    let mut answered = conversation;
    answered.push(Message::user().with_tool_response("r1".to_string(), Ok(vec![])));
    let selected = selector.select(&tools, &answered);
    assert!(selected.is_empty());

    // The all-strategy passes everything through unchanged.
    let all = ToolSelector::new(SelectionStrategy::All).select(&tools, &answered);
    assert_eq!(all.len(), tools.len());
}

#[test]
fn ranked_selection_prefers_mentioned_tools() {
    let mut registry = ExtensionRegistry::new();
    registry.add(ext("files", vec!["read", "write"])).unwrap();
    let tools = registry.list_tools(None);

    // The recent conversation text mentions only the read tool.
    let conversation = Conversation::new(vec![Message::user().with_text("please read the notes")]);
    let selector = ToolSelector::new(SelectionStrategy::Ranked { k: 1 });
    let selected = selector.select(&tools, &conversation);
    assert_eq!(selected.len(), 1);
    assert_eq!(selected[0].id, "files__read");
}

#[test]
fn fresh_history_has_no_responses() {
    let fresh = Conversation::new(vec![Message::user().with_text("hello")]);
    assert!(fresh.has_no_tool_responses());
    let mut resumed = fresh;
    resumed.push(Message::user().with_tool_response("r".to_string(), Ok(vec![])));
    assert!(!resumed.has_no_tool_responses());
}

#[test]
fn strategy_update_rebuilds_index_on_request() {
    let mut registry = ExtensionRegistry::new();
    registry.add(ext("fetch", vec!["get"])).unwrap();
    let tools = registry.list_tools(None);

    let mut selector = ToolSelector::new(SelectionStrategy::All);
    selector.update_strategy(SelectionStrategy::Ranked { k: 3 }, false, &tools);
    assert_eq!(selector.strategy, SelectionStrategy::Ranked { k: 3 });
    assert!(selector.index.is_none());

    selector.update_strategy(SelectionStrategy::Ranked { k: 2 }, true, &tools);
    assert_eq!(
        selector.index,
        Some(vec!["fetch__get".to_string()])
    );
}

#[test]
fn key_inspection_reports_locations() {
    let from_env = inspect_key(&KeyLookup {
        name: "API_KEY".to_string(),
        is_secret: false,
        env_value: Some("abc".to_string()),
        config_value: None,
    });
    assert!(from_env.is_set);
    assert_eq!(from_env.location, KeyLocation::Environment);
    assert_eq!(from_env.value, Some("abc".to_string()));

    let secret = inspect_key(&KeyLookup {
        name: "TOKEN".to_string(),
        is_secret: true,
        env_value: None,
        config_value: Some(("hunter2".to_string(), true)),
    });
    assert!(secret.is_set);
    assert_eq!(secret.location, KeyLocation::Keychain);
    assert_eq!(secret.value, None);

    let missing = inspect_key(&KeyLookup {
        name: "ABSENT".to_string(),
        is_secret: false,
        env_value: None,
        config_value: None,
    });
    assert!(!missing.is_set);
    assert_eq!(missing.location, KeyLocation::NotFound);

    let all = inspect_keys(&vec![KeyLookup {
        name: "A".to_string(),
        is_secret: false,
        env_value: None,
        config_value: Some(("1".to_string(), false)),
    }]);
    assert_eq!(all.len(), 1);
    assert_eq!(all[0].location, KeyLocation::ConfigFile);
    assert_eq!(all[0].value, Some("1".to_string()));
}

fn ckey(name: &str, required: bool, default: Option<&str>) -> ConfigKey {
    ConfigKey {
        name: name.to_string(),
        required,
        secret: false,
        default: default.map(|d| d.to_string()),
    }
}

#[test]
fn provider_configuration_branches() {
    // Zero-config providers need their explicit marker.
    let zero = ProviderMetadata {
        name: "ollama".to_string(),
        config_keys: Vec::new(),
    };
    let no_marker = ConfigSnapshot {
        env_keys: Vec::new(),
        config_keys: Vec::new(),
    };
    assert!(!check_provider_configured(&zero, &no_marker));
    let with_marker = ConfigSnapshot {
        env_keys: Vec::new(),
        config_keys: vec!["ollama_configured".to_string()],
    };
    assert!(check_provider_configured(&zero, &with_marker));

    // A single required key with a default must be explicitly set.
    let single = ProviderMetadata {
        name: "openai".to_string(),
        config_keys: vec![ckey("OPENAI_HOST", true, Some("https://api"))],
    };
    assert!(!check_provider_configured(&single, &no_marker));
    let host_set = ConfigSnapshot {
        env_keys: vec!["OPENAI_HOST".to_string()],
        config_keys: Vec::new(),
    };
    assert!(check_provider_configured(&single, &host_set));

    // Required keys without defaults must all be set.
    let multi = ProviderMetadata {
        name: "acme".to_string(),
        config_keys: vec![ckey("ACME_KEY", true, None), ckey("ACME_ORG", true, None)],
    };
    let one_set = ConfigSnapshot {
        env_keys: vec!["ACME_KEY".to_string()],
        config_keys: Vec::new(),
    };
    assert!(!check_provider_configured(&multi, &one_set));
    let both_set = ConfigSnapshot {
        env_keys: vec!["ACME_KEY".to_string()],
        config_keys: vec!["ACME_ORG".to_string()],
    };
    assert!(check_provider_configured(&multi, &both_set));
}

#[test]
fn secret_key_verification() {
    let expected = "SECRET-REDACTED".to_string();
    assert_eq!(verify_secret_key(Some(&expected), &expected), Ok(()));
    let wrong = "other".to_string();
    assert_eq!(
        verify_secret_key(Some(&wrong), &expected),
        Err(AuthError::Unauthorized)
    );
    assert_eq!(verify_secret_key(None, &expected), Err(AuthError::Unauthorized));
}

#[test]
fn model_selection_prefers_payload() {
    assert_eq!(
        select_model(Some("gpt".to_string()), Some("fallback".to_string())),
        Ok("gpt".to_string())
    );
    assert_eq!(select_model(None, Some("fallback".to_string())), Ok("fallback".to_string()));
    assert_eq!(select_model(None, None), Err(()));
}

#[test]
fn tools_info_carries_permissions() {
    let mut registry = ExtensionRegistry::new();
    registry.add(ext("fetch", vec!["get"])).unwrap();
    let tools = registry.list_tools(None);

    let mut pm = PermissionManager::new();
    let under_approve = get_tools_info(&tools, &pm, ConfiguredMode::Approve);
    assert_eq!(under_approve.len(), 1);
    assert_eq!(under_approve[0].name, "fetch__get");
    assert_eq!(under_approve[0].parameters, vec!["input".to_string()]);
    assert_eq!(under_approve[0].permission, Some(PermissionDecision::AskBefore));

    let under_auto = get_tools_info(&tools, &pm, ConfiguredMode::Auto);
    assert_eq!(under_auto[0].permission, None);

    pm.set_override("fetch__get".to_string(), PermissionDecision::Auto);
    let with_override = get_tools_info(&tools, &pm, ConfiguredMode::Approve);
    assert_eq!(with_override[0].permission, Some(PermissionDecision::Auto));
}

#[test]
fn blog_summary_checks_numbered_list() {
    let eval = BlogSummary::new();
    assert!(eval.check_markdown_numbered_list("1. a\n2. b\n3. c\n4. d\n5. e"));
    assert!(!eval.check_markdown_numbered_list("1. a\n2. b\n3. c\n4. d"));
    assert_eq!(eval.name(), "blog_summary");

    let reqs = eval.required_extensions();
    assert_eq!(reqs.builtin, vec!["developer".to_string()]);
    assert_eq!(reqs.external, vec!["uvx mcp-server-fetch".to_string()]);
    assert!(reqs.remote.is_empty());

    let metrics = eval.summary_metrics("1. 2. 3. 4. 5.", true);
    assert_eq!(metrics.len(), 2);
    assert_eq!(metrics[0].0, "valid_markdown_format");
    assert_eq!(metrics[0].1, EvalMetricValue::Boolean(true));
    assert_eq!(metrics[1].0, "used_fetch_tool");
    assert_eq!(metrics[1].1, EvalMetricValue::Boolean(true));
}

#[test]
fn tutorial_router_serves_tutorials() {
    let files = vec![
        TutorialFile {
            name: "getting-started".to_string(),
            content: "First Steps\nmore text".to_string(),
        },
        TutorialFile {
            name: "developer-mcp".to_string(),
            content: "Developer guide".to_string(),
        },
    ];
    let router = TutorialRouter::new(files);

    assert_eq!(router.name(), "tutorial");
    assert_eq!(router.capabilities().tools, Some(false));
    let tools = router.list_tools();
    assert_eq!(tools.len(), 1);
    assert_eq!(tools[0].name, "load_tutorial");

    let overview = TutorialRouter::get_available_tutorials(&router.tutorials);
    assert_eq!(
        overview,
        "- getting-started: First Steps\n- developer-mcp: Developer guide\n"
    );
    assert!(router.instructions.contains(&overview));

    let found = router.load_tutorial(&"getting-started".to_string()).unwrap();
    assert_eq!(found, "First Steps\nmore text");
    let missing = router.load_tutorial(&"absent".to_string()).unwrap_err();
    assert_eq!(missing.message, "Could not locate tutorial 'absent'");

    let args = ToolArguments::from_entries(vec![(
        "name".to_string(),
        "developer-mcp".to_string(),
    )]);
    let contents = router
        .call_tool(&"load_tutorial".to_string(), &args)
        .unwrap();
    assert_eq!(contents.len(), 1);

    let no_name = router
        .call_tool(&"load_tutorial".to_string(), &ToolArguments::new())
        .unwrap_err();
    assert_eq!(no_name.message, "Missing 'name' parameter");

    let unknown = router
        .call_tool(&"other".to_string(), &ToolArguments::new())
        .unwrap_err();
    assert_eq!(unknown.message, "Tool other not found");

    assert!(router.list_resources().is_empty());
    assert_eq!(router.read_resource("x").unwrap(), "");
    assert!(router.list_prompts().is_empty());
    assert!(router.get_prompt("p").is_err());
}

#[test]
fn tts_router_plans_and_wraps() {
    let router = UkrainianTTSRouter::new();
    assert_eq!(router.name(), "ukrainian-tts");
    assert_eq!(router.list_tools().len(), 3);

    let args = ToolArguments::from_entries(vec![("text".to_string(), "привіт".to_string())]);
    match router.plan_tool_call(&"say_tts".to_string(), &args).unwrap() {
        TtsAction::Speak { text, voice, lang } => {
            assert_eq!(text, "привіт");
            assert_eq!(voice, "tetiana");
            assert_eq!(lang, "uk");
        }
        other => panic!("expected a speak action, got {:?}", other),
    }

    let missing = router
        .plan_tool_call(&"say_tts".to_string(), &ToolArguments::new())
        .unwrap_err();
    assert_eq!(missing.message, "Missing required parameter: text");

    assert_eq!(
        router
            .plan_tool_call(&"list_voices".to_string(), &ToolArguments::new())
            .unwrap(),
        TtsAction::ListVoices
    );
    let unknown = router
        .plan_tool_call(&"bogus".to_string(), &ToolArguments::new())
        .unwrap_err();
    assert_eq!(unknown.message, "Unknown tool: bogus");

    let ok = router.wrap_tts_outcome(&TtsAction::ListVoices, Ok("voices".to_string()));
    assert_eq!(ok.len(), 1);
    let failed = router.wrap_tts_outcome(
        &TtsAction::Status,
        Err(goose::message::ErrorData {
            code: goose::message::INTERNAL_ERROR,
            message: "engine down".to_string(),
        }),
    );
    match &failed[0] {
        goose::message::Content::Text(t) => {
            assert_eq!(t.text, "Error getting status: engine down")
        }
        other => panic!("expected text content, got {:?}", other),
    }
}

#[test]
fn number_rendering_is_exact() {
    assert_eq!(u64_to_string(0), "0");
    assert_eq!(u64_to_string(90125), "90125");
    assert_eq!(i64_to_string(-32603), "-32603");
    assert_eq!(i64_to_string(i64::MIN), "-9223372036854775808");
    assert_eq!(goose::message::default_created(), 0);
}

#[test]
fn argument_lookup_and_render() {
    let mut args = ToolArguments::new();
    args.push("url".to_string(), "https://example.com".to_string());
    args.push("mode".to_string(), "fast".to_string());
    assert_eq!(
        args.get(&"url".to_string()),
        Some(&"https://example.com".to_string())
    );
    assert_eq!(args.get(&"absent".to_string()), None);
    assert_eq!(
        args.render(),
        "{\"url\": \"https://example.com\", \"mode\": \"fast\"}"
    );
    match MessageContent::tool_confirmation_request(
        "c1".to_string(),
        "fetch__get".to_string(),
        args,
        None,
    ) {
        MessageContent::ToolConfirmationRequest(req) => assert_eq!(req.tool_name, "fetch__get"),
        other => panic!("expected a confirmation request, got {:?}", other),
    }
}
