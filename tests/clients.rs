use synthia_agent::clients::{build_request, check_provider, model_info_for, LLMError, Message, MessageRole, ToolCall, ToolDefinition, ToolFunction};
use synthia_agent::json::JsonValue;

fn member<'a>(v: &'a JsonValue, key: &str) -> &'a JsonValue {
    match v {
        JsonValue::Object(e) => &e.iter().find(|(k, _)| k == key).unwrap().1,
        _ => panic!("not an object"),
    }
}

#[test]
fn request_body_lists_messages_and_tools() {
    let messages = vec![
        Message { role: MessageRole::System, content: "sys".to_string(), tool_calls: None },
        Message {
            role: MessageRole::Assistant,
            content: "TOOL_CALL:grep:x".to_string(),
            tool_calls: Some(vec![ToolCall {
                id: "call_1".to_string(),
                function: ToolFunction { name: "grep".to_string(), arguments: "x".to_string() },
            }]),
        },
    ];
    let tools = vec![ToolDefinition {
        name: "grep".to_string(),
        description: "Search".to_string(),
        parameters: "{\"type\":\"object\"}".to_string(),
    }];
    let body = build_request("gpt-4o", &messages, &tools);
    assert_eq!(member(&body, "model"), &JsonValue::Str("gpt-4o".to_string()));
    assert_eq!(member(&body, "stream"), &JsonValue::Bool(true));
    let JsonValue::Array(ms) = member(&body, "messages") else { panic!("messages") };
    assert_eq!(member(&ms[0], "role"), &JsonValue::Str("system".to_string()));
    let JsonValue::Array(calls) = member(&ms[1], "tool_calls") else { panic!("calls") };
    assert_eq!(member(&calls[0], "type"), &JsonValue::Str("function".to_string()));
    assert_eq!(member(member(&calls[0], "function"), "arguments"), &JsonValue::Str("x".to_string()));
    let JsonValue::Array(ts) = member(&body, "tools") else { panic!("tools") };
    assert_eq!(
        member(member(&ts[0], "function"), "parameters"),
        &JsonValue::Object(vec![("type".to_string(), JsonValue::Str("object".to_string()))])
    );
}

#[test]
fn request_body_without_tools_has_no_tools_member() {
    let body = build_request("m", &[], &[]);
    let JsonValue::Object(e) = body else { panic!("object") };
    assert_eq!(e.len(), 3);
}

#[test]
fn providers() {
    assert_eq!(check_provider("openai"), Ok(()));
    assert_eq!(check_provider("OpenAI"), Ok(()));
    assert_eq!(check_provider("other"), Err(LLMError::ConfigError("Unknown provider: other".to_string())));
    assert_eq!(LLMError::ApiError("x".to_string()).message(), "API error: x");
    let info = model_info_for("gpt-4o".to_string());
    assert_eq!(info.max_tokens, Some(16384));
}
