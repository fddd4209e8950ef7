use goose::args::ToolArguments;
use goose::message::{
    Content, ErrorData, ImageContent, Message, MessageContent, PromptMessage,
    PromptMessageContent, PromptMessageRole, ResourceContents, Role, TextContent, ToolCall,
    ToolResponse, INTERNAL_ERROR,
};

fn simple_args(pairs: Vec<(&str, &str)>) -> ToolArguments {
    let entries = pairs
        .into_iter()
        .map(|(k, v)| (k.to_string(), v.to_string()))
        .collect();
    ToolArguments::from_entries(entries)
}

#[test]
fn test_sanitize_with_text() {
    let malicious = "Hello\u{E0041}\u{E0042}\u{E0043}world"; // Invisible "ABC"
    let message = Message::user().with_text(malicious);
    assert_eq!(message.as_concat_text(), "Helloworld");
}

#[test]
fn test_no_sanitize_with_text() {
    let clean_text = "Hello world 世界 🌍";
    let message = Message::user().with_text(clean_text);
    assert_eq!(message.as_concat_text(), clean_text);
}

#[test]
fn test_message_with_text() {
    let message = Message::user().with_text("Hello");
    assert_eq!(message.as_concat_text(), "Hello");
}

#[test]
fn test_message_with_tool_request() {
    let tool_call = Ok(ToolCall {
        name: "test_tool".to_string(),
        arguments: simple_args(vec![]),
    });

    let message = Message::assistant().with_tool_request("req1".to_string(), tool_call);
    assert!(message.is_tool_call());
    assert!(!message.is_tool_response());

    let ids = message.get_tool_ids();
    assert_eq!(ids.len(), 1);
    assert!(ids.contains(&"req1".to_string()));
}

#[test]
fn test_from_prompt_message_text() {
    let prompt_content = PromptMessageContent::Text {
        text: "Hello, world!".to_string(),
    };

    let prompt_message = PromptMessage {
        role: PromptMessageRole::User,
        content: prompt_content,
    };

    let message = Message::from_prompt_message(prompt_message);

    if let MessageContent::Text(text_content) = &message.content[0] {
        assert_eq!(text_content.text, "Hello, world!");
    } else {
        panic!("Expected MessageContent::Text");
    }
}

#[test]
fn test_from_prompt_message_image() {
    let prompt_content = PromptMessageContent::Image {
        image: ImageContent {
            data: "base64data".to_string(),
            mime_type: "image/jpeg".to_string(),
        },
    };

    let prompt_message = PromptMessage {
        role: PromptMessageRole::User,
        content: prompt_content,
    };

    let message = Message::from_prompt_message(prompt_message);

    if let MessageContent::Image(image_content) = &message.content[0] {
        assert_eq!(image_content.data, "base64data");
        assert_eq!(image_content.mime_type, "image/jpeg");
    } else {
        panic!("Expected MessageContent::Image");
    }
}

#[test]
fn test_from_prompt_message_text_resource() {
    let resource = ResourceContents::TextResourceContents {
        uri: "file:///test.txt".to_string(),
        mime_type: Some("text/plain".to_string()),
        text: "Resource content".to_string(),
    };

    let prompt_message = PromptMessage {
        role: PromptMessageRole::User,
        content: PromptMessageContent::Resource { resource },
    };

    let message = Message::from_prompt_message(prompt_message);

    if let MessageContent::Text(text_content) = &message.content[0] {
        assert_eq!(text_content.text, "Resource content");
    } else {
        panic!("Expected MessageContent::Text");
    }
}

#[test]
fn test_from_prompt_message_blob_resource() {
    let resource = ResourceContents::BlobResourceContents {
        uri: "file:///test.bin".to_string(),
        mime_type: Some("application/octet-stream".to_string()),
        blob: "binary_data".to_string(),
    };

    let prompt_message = PromptMessage {
        role: PromptMessageRole::User,
        content: PromptMessageContent::Resource { resource },
    };

    let message = Message::from_prompt_message(prompt_message);

    if let MessageContent::Text(text_content) = &message.content[0] {
        assert_eq!(text_content.text, "[Binary content: binary_data]");
    } else {
        panic!("Expected MessageContent::Text");
    }
}

#[test]
fn test_from_prompt_message() {
    // Test user message conversion
    let prompt_message = PromptMessage {
        role: PromptMessageRole::User,
        content: PromptMessageContent::Text {
            text: "Hello, world!".to_string(),
        },
    };

    let message = Message::from_prompt_message(prompt_message);
    assert_eq!(message.role, Role::User);
    assert_eq!(message.content.len(), 1);
    assert_eq!(message.as_concat_text(), "Hello, world!");

    // Test assistant message conversion
    let prompt_message = PromptMessage {
        role: PromptMessageRole::Assistant,
        content: PromptMessageContent::Text {
            text: "I can help with that.".to_string(),
        },
    };

    let message = Message::from_prompt_message(prompt_message);
    assert_eq!(message.role, Role::Assistant);
    assert_eq!(message.content.len(), 1);
    assert_eq!(message.as_concat_text(), "I can help with that.");
}

#[test]
fn test_message_deserialization_sanitizes_text_content() {
    // Decoded content carrying Unicode tag characters plus an image.
    let malicious_text = "Hello\u{E0041}\u{E0042}\u{E0043}world";
    let content = vec![
        MessageContent::text(malicious_text.to_string()),
        MessageContent::image("base64data".to_string(), "image/png".to_string()),
    ];

    let message = Message::from_deserialized(
        Some("test-id".to_string()),
        Role::User,
        1640995200,
        content,
    );

    // Text content should be sanitized
    assert_eq!(message.as_concat_text(), "Helloworld");

    // Image content should be unchanged
    if let MessageContent::Image(img) = &message.content[1] {
        assert_eq!(img.data, "base64data");
        assert_eq!(img.mime_type, "image/png");
    } else {
        panic!("Expected ImageContent");
    }
}

#[test]
fn test_legitimate_unicode_preserved_during_message_deserialization() {
    let content = vec![MessageContent::text("Hello world 世界 🌍".to_string())];

    let message = Message::from_deserialized(
        Some("test-id".to_string()),
        Role::User,
        1640995200,
        content,
    );

    assert_eq!(message.as_concat_text(), "Hello world 世界 🌍");
}

#[test]
fn test_deserialization() {
    // The decoded form of a stored assistant turn: one text item and one
    // tool request.
    let content = vec![
        MessageContent::text("I'll help you with that.".to_string()),
        MessageContent::tool_request(
            "tool123".to_string(),
            Ok(ToolCall {
                name: "test_tool".to_string(),
                arguments: simple_args(vec![("param", "value")]),
            }),
        ),
    ];

    let message = Message::from_deserialized(None, Role::Assistant, 1740171566, content);

    assert_eq!(message.role, Role::Assistant);
    assert_eq!(message.created, 1740171566);
    assert_eq!(message.content.len(), 2);

    // Check first content item
    if let MessageContent::Text(text) = &message.content[0] {
        assert_eq!(text.text, "I'll help you with that.");
    } else {
        panic!("Expected Text content");
    }

    // Check second content item
    if let MessageContent::ToolRequest(req) = &message.content[1] {
        assert_eq!(req.id, "tool123");
        if let Ok(tool_call) = &req.tool_call {
            assert_eq!(tool_call.name, "test_tool");
            assert_eq!(
                tool_call.arguments.entries,
                vec![("param".to_string(), "value".to_string())]
            );
        } else {
            panic!("Expected successful tool call");
        }
    } else {
        panic!("Expected ToolRequest content");
    }
}

#[test]
fn test_sanitize_twice_is_once() {
    let tainted = "a\u{E0000}b\u{E007F}c";
    let once = goose::sanitize::sanitize_unicode_tags(tainted);
    let twice = goose::sanitize::sanitize_unicode_tags(once.as_str());
    assert_eq!(once, "abc");
    assert_eq!(twice, once);
}

#[test]
fn test_concat_text_joins_with_newlines() {
    let message = Message::assistant()
        .with_text("one")
        .with_thinking("hidden".to_string(), "sig".to_string())
        .with_text("two");
    assert_eq!(message.as_concat_text(), "one\ntwo");
    assert!(!message.has_only_text_content());
}

#[test]
fn test_tool_response_ids_and_text() {
    let contents = vec![
        Content::Text(TextContent {
            text: "first".to_string(),
        }),
        Content::Audio,
        Content::Text(TextContent {
            text: "second".to_string(),
        }),
    ];
    let message = Message::user().with_tool_response("call7".to_string(), Ok(contents));
    assert!(message.is_tool_response());
    let ids = message.get_tool_response_ids();
    assert_eq!(ids, vec!["call7".to_string()]);
    assert_eq!(message.get_tool_request_ids().len(), 0);

    let item = &message.content[0];
    assert_eq!(item.as_tool_response_text(), Some("first\nsecond".to_string()));
}

#[test]
fn test_display_and_debug_strings() {
    let response = MessageContent::ToolResponse(ToolResponse {
        id: "x".to_string(),
        tool_result: Err(ErrorData {
            code: INTERNAL_ERROR,
            message: "Something went wrong".to_string(),
        }),
    });
    assert_eq!(
        response.display_string(),
        "[ToolResponse: Error: -32603: Something went wrong]"
    );

    let message = Message::new(
        Role::Assistant,
        0,
        vec![MessageContent::text("hi".to_string()), response],
    );
    assert_eq!(
        message.debug(),
        "Assistant: hi [ToolResponse: Error: -32603: Something went wrong]"
    );
}

#[test]
fn test_readable_tool_request() {
    let message = Message::assistant().with_tool_request(
        "tool123".to_string(),
        Ok(ToolCall {
            name: "test_tool".to_string(),
            arguments: simple_args(vec![("param", "value")]),
        }),
    );
    if let MessageContent::ToolRequest(req) = &message.content[0] {
        assert_eq!(
            req.to_readable_string(),
            "Tool: test_tool, Args: {\"param\": \"value\"}"
        );
    } else {
        panic!("Expected ToolRequest content");
    }
}
