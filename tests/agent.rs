use std::path::PathBuf;
use synthia_agent::agent::{
    action_input_of, final_answer_of, split_action, AgentError, ReactAgent, Step, TurnOutcome,
};
use synthia_agent::clients::{ChunkType, StreamChunk};
use synthia_agent::json::JsonValue;
use synthia_agent::tools::{default_tools, BuiltinTool, ToolError, ToolManager};

fn object(entries: Vec<(&str, JsonValue)>) -> JsonValue {
    JsonValue::Object(entries.into_iter().map(|(k, v)| (k.to_string(), v)).collect())
}

fn text(s: &str) -> JsonValue {
    JsonValue::Str(s.to_string())
}

fn chunk(kind: ChunkType, content: &str) -> StreamChunk {
    StreamChunk { content: content.to_string(), chunk_type: kind, delta: true }
}

fn agent(max_steps: Option<usize>) -> ReactAgent<BuiltinTool> {
    ReactAgent::new(default_tools(PathBuf::from("/tmp")), PathBuf::from("/tmp"), max_steps, Some(true))
}

/// One turn whose model streams the given fragments, then the terminal event.
fn scripted_turn(a: &mut ReactAgent<BuiltinTool>, fragments: &[&str]) -> Result<TurnOutcome, AgentError> {
    let _ = a.request();
    for f in fragments {
        assert_eq!(a.on_event(&chunk(ChunkType::Content, f)), Ok(false));
    }
    assert_eq!(a.on_event(&chunk(ChunkType::Done, "")), Ok(true));
    a.end_turn()
}

#[test]
fn test_step_new() {
    let step = Step::new(
        "Thinking".to_string(),
        "read_file".to_string(),
        object(vec![("path", text("test.txt"))]),
        "File content".to_string(),
        "raw response".to_string(),
    );

    assert_eq!(step.thought, "Thinking");
    assert_eq!(step.action, "read_file");
}

#[test]
fn test_react_agent_new() {
    let tools: ToolManager<BuiltinTool> = ToolManager::new();
    let working_dir = PathBuf::from("/tmp");

    let agent = ReactAgent::new(tools, working_dir, Some(50), Some(true));

    assert_eq!(agent.max_steps(), 50);
}

#[test]
fn default_step_budget() {
    assert_eq!(agent(None).max_steps(), 200);
}

#[test]
fn tool_request_is_dispatched_and_recorded() {
    let mut a = agent(None);
    a.begin("look at a.txt");
    let out = scripted_turn(&mut a, &["I will check.TOOL_CALL: read_file: {\"path\":\"a.txt\"}"]);
    assert_eq!(out, Ok(TurnOutcome::Dispatch("read_file".to_string())));
    assert_eq!(a.pending_input(), Some(&object(vec![("path", text("a.txt"))])));
    assert!(a.tools().get("read_file").is_some());
    let next = a.tool_finished(Ok("{\"content\":\"hi\",\"success\":true}".to_string()));
    assert_eq!(next, Ok(TurnOutcome::Continue));
    let steps = a.take_steps();
    assert_eq!(steps.len(), 1);
    assert_eq!(steps[0].thought, "I will check.");
    assert_eq!(steps[0].action, "read_file");
    assert_eq!(steps[0].action_input, object(vec![("path", text("a.txt"))]));
    assert_eq!(steps[0].observation, "{\"content\":\"hi\",\"success\":true}");
}

#[test]
fn marker_split_across_fragments_is_found() {
    let mut a = agent(None);
    a.begin("t");
    let out = scripted_turn(&mut a, &["Plan. TOOL_", "CALL: grep", ": foo\n```"]);
    assert_eq!(out, Ok(TurnOutcome::Dispatch("grep".to_string())));
    assert_eq!(a.pending_input(), Some(&object(vec![("input", text("foo"))])));
    let _ = a.tool_finished(Ok("[]".to_string()));
    let steps = a.take_steps();
    assert_eq!(steps[0].thought, "Plan. ");
    assert_eq!(steps[0].raw, "Plan. TOOL_CALL: grep: foo\n```");
}

#[test]
fn final_answer_completes_the_run_after_one_step() {
    let mut a = agent(None);
    a.begin("say done");
    let out = scripted_turn(&mut a, &["FINAL: Done."]);
    assert_eq!(out, Ok(TurnOutcome::Complete));
    let steps = a.take_steps();
    assert_eq!(steps.len(), 1);
    assert_eq!(steps[0].action, "");
    assert_eq!(steps[0].observation, "");
    assert_eq!(steps[0].thought, "FINAL: Done.");
    assert_eq!(steps[0].action_input, JsonValue::Object(Vec::new()));
}

#[test]
fn step_budget_is_exhausted_after_one_turn() {
    let mut a = agent(Some(1));
    a.begin("never finishes");
    let out = scripted_turn(&mut a, &["Still thinking."]);
    assert_eq!(out, Err(AgentError::MaxStepsExceeded));
    assert_eq!(a.step_count(), 1);
}

#[test]
fn thought_only_turn_continues() {
    let mut a = agent(Some(3));
    a.begin("t");
    assert_eq!(scripted_turn(&mut a, &["Hmm."]), Ok(TurnOutcome::Continue));
    assert_eq!(scripted_turn(&mut a, &["Still."]), Ok(TurnOutcome::Continue));
    assert_eq!(scripted_turn(&mut a, &["More."]), Err(AgentError::MaxStepsExceeded));
    assert_eq!(a.step_count(), 3);
}

#[test]
fn unknown_tool_is_fatal() {
    let mut a = agent(None);
    a.begin("t");
    let out = scripted_turn(&mut a, &["TOOL_CALL: fly: away"]);
    assert_eq!(out, Err(AgentError::ToolError("Unknown tool: fly".to_string())));
}

#[test]
fn tool_failure_is_fatal() {
    let mut a = agent(None);
    a.begin("t");
    let _ = scripted_turn(&mut a, &["TOOL_CALL: list_dir: {\"path\":\".\"}"]);
    let out = a.tool_finished(Err(ToolError::IoError("denied".to_string())));
    assert_eq!(out, Err(AgentError::ToolError("IO error: denied".to_string())));
}

#[test]
fn error_event_is_fatal() {
    let mut a = agent(None);
    a.begin("t");
    let _ = a.request();
    assert_eq!(
        a.on_event(&chunk(ChunkType::Error, "boom")),
        Err(AgentError::LLMError("boom".to_string()))
    );
}

#[test]
fn empty_stream_is_an_error() {
    let mut a = agent(None);
    a.begin("t");
    let _ = a.request();
    assert_eq!(a.end_turn(), Err(AgentError::LLMError("No content received".to_string())));
}

#[test]
fn structured_tool_events_suppress_completion() {
    let mut a = agent(Some(5));
    a.begin("t");
    let _ = a.request();
    let _ = a.on_event(&chunk(ChunkType::Content, "FINAL: maybe"));
    let _ = a.on_event(&chunk(ChunkType::ToolCall, "grep"));
    let _ = a.on_event(&chunk(ChunkType::Done, ""));
    assert_eq!(a.end_turn(), Ok(TurnOutcome::Continue));
}

#[test]
fn request_carries_system_prompt_and_task() {
    let mut a = agent(None);
    a.begin("the task");
    let msgs = a.request();
    assert_eq!(msgs.len(), 2);
    assert!(msgs[0].content.contains("read_file"));
    assert_eq!(msgs[1].content, "the task");
}

#[test]
fn action_text_is_split_at_the_first_colon() {
    let (name, args) = split_action("  run_command: ls -la: x \n```");
    assert_eq!(name, "run_command");
    assert_eq!(args, "ls -la: x");
    let (name, args) = split_action("glob");
    assert_eq!(name, "glob");
    assert_eq!(args, "");
}

#[test]
fn argument_text_becomes_the_tool_input() {
    assert_eq!(action_input_of("{\"a\":\"b\"}"), object(vec![("a", text("b"))]));
    assert_eq!(action_input_of("{broken"), JsonValue::Object(Vec::new()));
    assert_eq!(action_input_of("plain"), object(vec![("input", text("plain"))]));
}

#[test]
fn final_answer_is_the_text_after_the_marker() {
    assert_eq!(final_answer_of("ok FINAL:  all set "), "all set");
    assert_eq!(final_answer_of("FINAL: a FINAL: b"), "a");
    assert_eq!(final_answer_of("no marker"), "");
    assert_eq!(final_answer_of("FINAL:   "), "");
}

#[test]
fn agent_error_texts() {
    assert_eq!(AgentError::MaxStepsExceeded.message(), "Max steps exceeded");
    assert_eq!(AgentError::LLMError("x".to_string()).message(), "LLM error: x");
}
