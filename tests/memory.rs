use synthia_agent::clients::{Message, MessageRole, ToolCall, ToolFunction};
use synthia_agent::memory::{count_tokens, ContextCompressor, ContextMetadata, ConversationHistory, ToolResult};

fn msg(role: MessageRole, content: &str) -> Message {
    Message { role, content: content.to_string(), tool_calls: None }
}

fn call_msg(tool: &str) -> Message {
    Message {
        role: MessageRole::Assistant,
        content: format!("TOOL_CALL:{}:{{}}", tool),
        tool_calls: Some(vec![ToolCall {
            id: "call_1".to_string(),
            function: ToolFunction { name: tool.to_string(), arguments: "{}".to_string() },
        }]),
    }
}

fn result(tool: &str) -> ToolResult {
    ToolResult { tool_name: tool.to_string(), arguments: "{}".to_string(), result: "{}".to_string(), timestamp: 0 }
}

#[test]
fn test_context_compressor_new() {
    let compressor = ContextCompressor::new(10000, 800, 5);
    assert_eq!(compressor.max_tokens(), 10000);
}

#[test]
fn test_compress_no_compression_needed() {
    let compressor = ContextCompressor::with_tokens(10000);
    let messages = vec![Message {
        role: MessageRole::User,
        content: "Hello".to_string(),
        tool_calls: None,
    }];

    let (compressed, _, metadata) = compressor.compress(&messages, &[]);

    assert_eq!(compressed.len(), 1);
    assert!(!metadata.compressed);
}

#[test]
fn test_conversation_history() {
    let mut history = ConversationHistory::new(5);

    history.add_message(Message {
        role: MessageRole::User,
        content: "Test".to_string(),
        tool_calls: None,
    });

    assert_eq!(history.get_messages().len(), 1);
}

#[test]
fn zero_budget_takes_the_default() {
    assert_eq!(ContextCompressor::new(0, 0, 1).max_tokens(), 8000);
}

#[test]
fn token_estimate_is_a_quarter_of_the_bytes_plus_call_charges() {
    let messages = vec![msg(MessageRole::User, "12345678"), call_msg("grep")];
    // 8/4 = 2; "TOOL_CALL:grep:{}" is 17 bytes, 17/4 = 4, plus 20 for the call.
    let results = vec![ToolResult {
        tool_name: "grep".to_string(),
        arguments: "{\"pattern\":\"x\"}".to_string(),
        result: "[]".to_string(),
        timestamp: 7,
    }];
    // 4/4 + 15/4 + 2/4 = 1 + 3 + 0
    assert_eq!(count_tokens(&messages, &[]), 26);
    assert_eq!(count_tokens(&messages, &results), 30);
    assert_eq!(count_tokens(&[msg(MessageRole::User, "é")], &[]), 0);
}

#[test]
fn below_budget_returns_input_unchanged() {
    let compressor = ContextCompressor::new(1000, 700, 1);
    let messages = vec![msg(MessageRole::System, "sys"), msg(MessageRole::User, "hi"), call_msg("grep")];
    let results = vec![result("read_file")];
    let (m, r, meta) = compressor.compress(&messages, &results);
    assert_eq!(m, messages);
    assert_eq!(r, results);
    assert_eq!(meta, ContextMetadata { total_tokens: 26, compressed: false, compression_count: 0 });
}

#[test]
fn over_budget_keeps_system_summary_and_recent() {
    let compressor = ContextCompressor::new(10, 700, 2);
    let long = "x".repeat(100);
    let messages = vec![
        msg(MessageRole::System, "rules"),
        msg(MessageRole::User, &long),
        call_msg("read_file"),
        msg(MessageRole::Tool, "data"),
        msg(MessageRole::System, "more rules"),
        msg(MessageRole::User, "next"),
    ];
    let (m, _, meta) = compressor.compress(&messages, &[]);
    assert_eq!(m.len(), 5);
    assert_eq!(m[0], messages[0]);
    assert_eq!(m[1], messages[4]);
    assert_eq!(m[2].role, MessageRole::User);
    assert_eq!(
        m[2].content,
        "[Previous conversation summarized: 1 user messages, 1 assistant responses, 1 tool calls]"
    );
    assert_eq!(m[3], messages[3]);
    assert_eq!(m[4], messages[5]);
    assert!(meta.compressed);
    assert_eq!(meta.compression_count, 1);
}

#[test]
fn only_results_of_retained_calls_survive() {
    let compressor = ContextCompressor::new(5, 700, 1);
    let long = "y".repeat(200);
    let messages = vec![msg(MessageRole::User, &long), call_msg("read_file"), call_msg("grep")];
    let results = vec![result("read_file"), result("grep")];
    let (m, r, _) = compressor.compress(&messages, &results);
    assert_eq!(m.len(), 2);
    assert_eq!(r, vec![result("grep")]);
}

#[test]
fn keeping_more_than_available_keeps_everything() {
    let compressor = ContextCompressor::new(1, 700, 10);
    let messages = vec![msg(MessageRole::User, "aaaaaaaaaaaa"), msg(MessageRole::Assistant, "bbbbbbbbbbbb")];
    let (m, _, meta) = compressor.compress(&messages, &[]);
    assert_eq!(m.len(), 3);
    assert_eq!(m[0].content, "[Previous conversation summarized: No previous conversation]");
    assert_eq!(m[1], messages[0]);
    assert_eq!(m[2], messages[1]);
    assert_eq!(meta.total_tokens, 21);
}

#[test]
fn history_drops_the_oldest_first() {
    let mut h = ConversationHistory::new(2);
    h.add_message(msg(MessageRole::User, "a"));
    h.add_message(msg(MessageRole::User, "b"));
    h.add_message(msg(MessageRole::User, "c"));
    let m = h.get_messages();
    assert_eq!(m.len(), 2);
    assert_eq!(m[0].content, "b");
    assert_eq!(m[1].content, "c");
    h.add_tool_result(result("grep"));
    assert_eq!(h.get_tool_results(), vec![result("grep")]);
    h.clear();
    assert!(h.get_messages().is_empty());
    assert!(h.get_tool_results().is_empty());
}

#[test]
fn history_of_capacity_zero_holds_nothing() {
    let mut h = ConversationHistory::new(0);
    h.add_message(msg(MessageRole::User, "a"));
    assert!(h.get_messages().is_empty());
}

#[test]
fn default_metadata_is_zero() {
    assert_eq!(
        ContextMetadata::default(),
        ContextMetadata { total_tokens: 0, compressed: false, compression_count: 0 }
    );
}
