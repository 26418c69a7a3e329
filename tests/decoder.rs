use synthia_agent::clients::{ChunkType, StreamChunk};
use synthia_agent::decoder::StreamDecoder;

fn decode_all(parts: &[&[u8]]) -> Vec<StreamChunk> {
    let mut d = StreamDecoder::new();
    let mut out = Vec::new();
    for p in parts {
        out.extend(d.feed(p));
    }
    out.extend(d.finish());
    out
}

fn content_line(text: &str) -> String {
    format!("data: {{\"choices\":[{{\"delta\":{{\"content\":\"{}\"}}}}]}}\n", text)
}

#[test]
fn deltas_then_sentinel_yield_each_content_then_one_terminal() {
    let mut body = String::new();
    for t in ["Hel", "lo", " world"] {
        body.push_str(&content_line(t));
    }
    body.push_str("data: [DONE]\n");
    let events = decode_all(&[body.as_bytes()]);
    assert_eq!(events.len(), 4);
    assert_eq!(events[0].content, "Hel");
    assert_eq!(events[1].content, "lo");
    assert_eq!(events[2].content, " world");
    for e in &events[..3] {
        assert_eq!(e.chunk_type, ChunkType::Content);
        assert!(e.delta);
    }
    assert_eq!(events[3].chunk_type, ChunkType::Done);
}

#[test]
fn sentinel_alone_yields_one_terminal() {
    let events = decode_all(&[b"data: [DONE]"]);
    assert_eq!(events.len(), 1);
    assert_eq!(events[0].chunk_type, ChunkType::Done);
    let events = decode_all(&[b"data: [DONE]\r\n"]);
    assert_eq!(events.len(), 1);
    assert_eq!(events[0].chunk_type, ChunkType::Done);
}

#[test]
fn single_document_yields_one_content_then_terminal() {
    let body = br#"{"choices":[{"message":{"role":"assistant","content":"FINAL: Done."}}]}"#;
    let events = decode_all(&[body]);
    assert_eq!(events.len(), 2);
    assert_eq!(events[0].chunk_type, ChunkType::Content);
    assert_eq!(events[0].content, "FINAL: Done.");
    assert!(!events[0].delta);
    assert_eq!(events[1].chunk_type, ChunkType::Done);
}

#[test]
fn single_document_without_content_yields_only_terminal() {
    let events = decode_all(&[br#"{"choices":[{"message":{"content":""}}]}"#]);
    assert_eq!(events.len(), 1);
    assert_eq!(events[0].chunk_type, ChunkType::Done);
}

#[test]
fn unparsable_body_yields_one_error_with_the_body() {
    let events = decode_all(&[b"not json at all"]);
    assert_eq!(events.len(), 1);
    assert_eq!(events[0].chunk_type, ChunkType::Error);
    assert_eq!(events[0].content, "Failed to parse response: not json at all");
}

#[test]
fn lines_split_across_chunks_are_joined() {
    let line = content_line("abc");
    let (a, b) = line.as_bytes().split_at(10);
    let events = decode_all(&[a, b, b"data: [DO", b"NE]\n"]);
    assert_eq!(events.len(), 2);
    assert_eq!(events[0].content, "abc");
    assert_eq!(events[1].chunk_type, ChunkType::Done);
}

#[test]
fn stream_without_sentinel_gets_a_terminal() {
    let line = content_line("x");
    let events = decode_all(&[line.as_bytes()]);
    assert_eq!(events.len(), 2);
    assert_eq!(events[0].content, "x");
    assert_eq!(events[1].chunk_type, ChunkType::Done);
}

#[test]
fn non_json_data_lines_are_skipped() {
    let mut body = String::from("data: keep-alive\n: comment\n");
    body.push_str(&content_line("y"));
    body.push_str("data: [DONE]\n");
    let events = decode_all(&[body.as_bytes()]);
    assert_eq!(events.len(), 2);
    assert_eq!(events[0].content, "y");
}

#[test]
fn tool_call_fragments_are_forwarded_in_order() {
    let mut body = String::new();
    body.push_str(r#"data: {"choices":[{"delta":{"tool_calls":[{"function":{"name":"grep","arguments":""}}]}}]}"#);
    body.push('\n');
    body.push_str(r#"data: {"choices":[{"delta":{"tool_calls":[{"function":{"arguments":"{\"pat"}}]}}]}"#);
    body.push('\n');
    body.push_str(r#"data: {"choices":[{"delta":{"tool_calls":[{"function":{"arguments":"tern\":1}"}}]}}]}"#);
    body.push('\n');
    body.push_str("data: [DONE]\n");
    let events = decode_all(&[body.as_bytes()]);
    assert_eq!(events.len(), 4);
    assert_eq!(events[0].chunk_type, ChunkType::ToolCall);
    assert_eq!(events[0].content, "grep");
    assert_eq!(events[1].chunk_type, ChunkType::ToolArgs);
    assert_eq!(events[1].content, "{\"pat");
    assert_eq!(events[2].content, "tern\":1}");
    assert_eq!(events[3].chunk_type, ChunkType::Done);
}

#[test]
fn nothing_is_read_after_the_sentinel() {
    let mut d = StreamDecoder::new();
    let first = d.feed(b"data: [DONE]\n");
    assert_eq!(first.len(), 1);
    assert!(d.feed(content_line("late").as_bytes()).is_empty());
    assert!(d.finish().is_empty());
}

#[test]
fn transport_failure_yields_one_error() {
    let mut d = StreamDecoder::new();
    let _ = d.feed(content_line("a").as_bytes());
    let err = d.fail("connection reset".to_string());
    assert_eq!(err.len(), 1);
    assert_eq!(err[0].chunk_type, ChunkType::Error);
    assert_eq!(err[0].content, "connection reset");
    assert!(d.finish().is_empty());
    assert!(d.fail("again".to_string()).is_empty());
}

#[test]
fn empty_content_deltas_yield_nothing() {
    let mut body = content_line("");
    body.push_str("data: [DONE]\n");
    let events = decode_all(&[body.as_bytes()]);
    assert_eq!(events.len(), 1);
    assert_eq!(events[0].chunk_type, ChunkType::Done);
}

#[test]
fn invalid_utf8_body_is_reported_lossily() {
    let events = decode_all(&[b"bad \xff body"]);
    assert_eq!(events.len(), 1);
    assert_eq!(events[0].chunk_type, ChunkType::Error);
    assert_eq!(events[0].content, "Failed to parse response: bad \u{fffd} body");
}
