//! The texts that instruct the model.
use vstd::prelude::*;
use crate::clients::ToolDefinition;
use crate::text::{concat, decimal, decimal_text};

verus! {

/// The part of the default prompt that precedes the tools section.
pub const PROMPT_HEAD: &'static str = "You are an expert AI programming assistant that helps with software development tasks.

## Your Capabilities
- Reading, writing, and analyzing code
- Running shell commands
- File system operations
- Code search and analysis

## Guidelines
1. Think step by step before taking action
2. Use tools efficiently - read files before writing, search before creating
3. Maintain code quality and follow best practices
4. Explain your reasoning and the actions you're taking

## Workflow
1. Understand the user's request
2. Plan your approach
3. Execute actions using tools
4. Verify results
5. Iterate as needed

## Important Notes
- Always use absolute paths for file operations
- Check file existence before reading
- Create necessary directories before writing files
- Handle errors gracefully and provide informative messages

";

/// The part of the default prompt that follows the tools section: it states
/// the action-marker protocol.
pub const PROMPT_TAIL: &'static str = "

## Response Format
You should think about the problem step by step, then take action using tools when needed. After receiving tool results, analyze them and continue until the task is complete.

When you need to use a tool, respond with:
```
TOOL_CALL: <tool_name>: <arguments_json>
```

When you have completed the task or need to respond to the user:
```
FINAL: <your response>
```";

pub const NO_TOOLS: &'static str = "You have no tools available.";

pub const TOOLS_INTRO: &'static str = "You have access to the following tools:\n";

pub const TOOLS_OUTRO: &'static str = "\n\nWhen you need to use a tool, respond with a JSON object in the following format:\n{\"tool\": \"<tool_name>\", \"parameters\": <parameters_json>}";

/// One line of the tool list.
pub open spec fn tool_line(t: ToolDefinition) -> Seq<char> {
    "- "@ + t.name@ + ": "@ + t.description@
}

/// The lines of the tool list, joined by line feeds.
pub open spec fn tool_lines(ts: Seq<ToolDefinition>) -> Seq<char>
    decreases ts.len(),
{
    if ts.len() == 0 {
        Seq::empty()
    } else if ts.len() == 1 {
        tool_line(ts[0])
    } else {
        tool_lines(ts.drop_last()) + "\n"@ + tool_line(ts.last())
    }
}

pub open spec fn tools_section(ts: Seq<ToolDefinition>) -> Seq<char> {
    if ts.len() == 0 {
        NO_TOOLS@
    } else {
        TOOLS_INTRO@ + tool_lines(ts) + TOOLS_OUTRO@
    }
}

/// The system prompt of a run: a non-empty custom prompt as it is, else the
/// default prompt around the tools section.
pub open spec fn agent_prompt(ts: Seq<ToolDefinition>, custom: Option<String>) -> Seq<char> {
    match custom {
        Some(c) if c@.len() > 0 => c@,
        _ => PROMPT_HEAD@ + tools_section(ts) + PROMPT_TAIL@,
    }
}

pub fn build_code_agent_prompt(tools: &[ToolDefinition], system_prompt: Option<String>) -> (r: String)
    ensures
        r@ == agent_prompt(tools@, system_prompt),
{
    if let Some(custom) = system_prompt {
        if !custom.as_str().is_empty() {
            return custom;
        }
    }
    let section = if tools.len() == 0 {
        NO_TOOLS.to_owned()
    } else {
        let mut lines = String::new();
        let mut i: usize = 0;
        while i < tools.len()
            invariant
                0 <= i <= tools.len(),
                lines@ == tool_lines(tools@.subrange(0, i as int)),
            decreases tools.len() - i,
        {
            let t = &tools[i];
            let line = concat(concat(concat("- ", t.name.as_str()).as_str(), ": ").as_str(), t.description.as_str());
            let ghost upto = tools@.subrange(0, i + 1);
            assert(upto.drop_last() =~= tools@.subrange(0, i as int));
            if i == 0 {
                lines = line;
            } else {
                lines = concat(concat(lines.as_str(), "\n").as_str(), line.as_str());
            }
            i = i + 1;
        }
        assert(tools@.subrange(0, tools@.len() as int) =~= tools@);
        concat(concat(TOOLS_INTRO, lines.as_str()).as_str(), TOOLS_OUTRO)
    };
    concat(concat(PROMPT_HEAD, section.as_str()).as_str(), PROMPT_TAIL)
}

pub fn build_step_prompt(step_number: usize, total_steps: usize) -> (r: String)
    ensures
        r@ == "Step "@ + decimal(step_number as nat) + "/"@ + decimal(total_steps as nat)
            + ": What is your next thought and action?"@,
{
    let head = concat(concat("Step ", decimal_text(step_number).as_str()).as_str(), "/");
    concat(concat(head.as_str(), decimal_text(total_steps).as_str()).as_str(), ": What is your next thought and action?")
}

pub fn build_observation_prompt(observation: &str) -> (r: String)
    ensures
        r@ == "Observation: "@ + observation@
            + "\n\nBased on this observation, what is your next thought and action?"@,
{
    concat(concat("Observation: ", observation).as_str(), "\n\nBased on this observation, what is your next thought and action?")
}

/// The prompt that reports a tool's result; `result_text` is the result as
/// pretty-printed JSON.
pub fn build_tool_result_prompt(tool_name: &str, result_text: &str) -> (r: String)
    ensures
        r@ == "Tool '"@ + tool_name@ + "' returned:\n"@ + result_text@
            + "\n\nWhat is your next thought and action?"@,
{
    let head = concat(concat("Tool '", tool_name).as_str(), "' returned:\n");
    concat(concat(head.as_str(), result_text).as_str(), "\n\nWhat is your next thought and action?")
}

pub fn build_final_response_prompt(completed: bool) -> (r: String)
    ensures
        r@ == if completed {
            "Task completed! Please provide a summary of what was accomplished."@
        } else {
            "Please provide your final response or next action."@
        },
{
    if completed {
        "Task completed! Please provide a summary of what was accomplished.".to_owned()
    } else {
        "Please provide your final response or next action.".to_owned()
    }
}

} // verus!
