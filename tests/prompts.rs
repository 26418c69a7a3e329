use synthia_agent::clients::ToolDefinition;
use synthia_agent::prompts::{
    build_code_agent_prompt, build_final_response_prompt, build_observation_prompt, build_step_prompt,
    build_tool_result_prompt,
};

#[test]
fn test_build_code_agent_prompt_with_tools() {
    let tools = vec![
        ToolDefinition {
            name: "read_file".to_string(),
            description: "Read a file".to_string(),
            parameters: "{}".to_string(),
        },
        ToolDefinition {
            name: "write_file".to_string(),
            description: "Write a file".to_string(),
            parameters: "{}".to_string(),
        },
    ];

    let prompt = build_code_agent_prompt(&tools, None);

    assert!(prompt.contains("read_file"));
    assert!(prompt.contains("write_file"));
    assert!(prompt.contains("TOOL_CALL:"));
    assert!(prompt.contains("FINAL:"));
}

#[test]
fn test_build_code_agent_prompt_empty_tools() {
    let tools = vec![];
    let prompt = build_code_agent_prompt(&tools, None);

    assert!(prompt.contains("no tools available"));
}

#[test]
fn test_build_code_agent_prompt_custom_system() {
    let tools = vec![];
    let custom_prompt = "You are a custom assistant.".to_string();
    let prompt = build_code_agent_prompt(&tools, Some(custom_prompt.clone()));

    assert_eq!(prompt, custom_prompt);
}

#[test]
fn tool_lines_are_listed_in_order() {
    let tools = vec![
        ToolDefinition { name: "a".to_string(), description: "first".to_string(), parameters: "{}".to_string() },
        ToolDefinition { name: "b".to_string(), description: "second".to_string(), parameters: "{}".to_string() },
    ];
    let prompt = build_code_agent_prompt(&tools, None);
    assert!(prompt.contains("You have access to the following tools:\n- a: first\n- b: second\n\nWhen you need"));
    assert!(prompt.starts_with("You are an expert AI programming assistant"));
    assert!(prompt.ends_with("FINAL: <your response>\n```"));
}

#[test]
fn empty_custom_prompt_falls_back_to_default() {
    let prompt = build_code_agent_prompt(&[], Some(String::new()));
    assert!(prompt.contains("You have no tools available."));
}

#[test]
fn step_prompt_numbers() {
    assert_eq!(build_step_prompt(3, 12), "Step 3/12: What is your next thought and action?");
    assert_eq!(build_step_prompt(0, 100), "Step 0/100: What is your next thought and action?");
}

#[test]
fn observation_prompt_text() {
    assert_eq!(
        build_observation_prompt("ok"),
        "Observation: ok\n\nBased on this observation, what is your next thought and action?"
    );
}

#[test]
fn tool_result_prompt_text() {
    assert_eq!(
        build_tool_result_prompt("grep", "{\n  \"a\": 1\n}"),
        "Tool 'grep' returned:\n{\n  \"a\": 1\n}\n\nWhat is your next thought and action?"
    );
}

#[test]
fn final_response_prompt_text() {
    assert_eq!(
        build_final_response_prompt(true),
        "Task completed! Please provide a summary of what was accomplished."
    );
    assert_eq!(build_final_response_prompt(false), "Please provide your final response or next action.");
}
