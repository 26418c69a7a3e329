use std::path::PathBuf;
use synthia_agent::json::JsonValue;
use synthia_agent::tools::{
    default_tools, file_pattern_matches, matches_wildcard, optional_str, required_str, wildcard_match, FileReadTool,
    FileWriteTool, GlobTool, GrepTool, ListDirTool, RunCommandTool, ToolError, ToolInfo, ToolManager,
};

fn info(name: &str, description: &str) -> ToolInfo {
    ToolInfo { name: name.to_string(), description: description.to_string(), parameters: "{}".to_string() }
}

#[test]
fn default_registry_has_the_six_tools_in_order() {
    let m = default_tools(PathBuf::from("/work"));
    assert_eq!(m.list(), vec!["read_file", "write_file", "list_dir", "grep", "run_command", "glob"]);
    let defs = m.get_definitions();
    assert_eq!(defs.len(), 6);
    assert_eq!(defs[3].name, "grep");
    assert_eq!(defs[3].description, "Search for a pattern in files");
    assert!(m.get("glob").is_some());
    assert!(m.get("nope").is_none());
}

#[test]
fn registering_a_name_again_replaces_the_tool() {
    let mut m: ToolManager<u32> = ToolManager::new();
    m.register(info("a", "first"), 1);
    m.register(info("b", "second"), 2);
    m.register(info("a", "again"), 3);
    assert_eq!(m.list(), vec!["a", "b"]);
    assert_eq!(m.get("a"), Some(&3));
    assert_eq!(m.get_definitions()[0].description, "again");
}

#[test]
fn tool_infos_name_each_tool() {
    let base = PathBuf::from("/w");
    assert_eq!(FileReadTool::new(base.clone()).info().name, "read_file");
    assert_eq!(FileWriteTool::new(base.clone()).info().name, "write_file");
    assert_eq!(ListDirTool::new(base.clone()).info().name, "list_dir");
    assert_eq!(GrepTool::new(base.clone()).info().name, "grep");
    assert_eq!(RunCommandTool::new(base.clone()).info().name, "run_command");
    let glob = GlobTool::new(base.clone());
    assert_eq!(glob.info().name, "glob");
    assert_eq!(glob.base_path(), &base);
    let schema: serde_json::Value = serde_json::from_str(&FileWriteTool::new(base).info().parameters).unwrap();
    assert_eq!(schema["required"][1], "content");
}

#[test]
fn wildcards_match_runs_and_single_bytes() {
    assert!(wildcard_match("main.rs", "*.rs"));
    assert!(wildcard_match("main.rs", "m??n.rs"));
    assert!(wildcard_match("", "*"));
    assert!(!wildcard_match("main.rs", "*.py"));
    assert!(!wildcard_match("ab", "a"));
    assert!(wildcard_match("abc", "a*c*"));
}

#[test]
fn recursive_patterns_match_by_what_follows() {
    assert!(matches_wildcard("lib.rs", "**/*.rs"));
    assert!(matches_wildcard("lib.rs", "**.rs") == wildcard_match("lib.rs", ".rs"));
    assert!(matches_wildcard("src", "**/src/*.rs"));
    assert!(matches_wildcard("x.rs", "**/src/*.rs") == false);
    assert!(matches_wildcard("notes.txt", "*.txt"));
}

#[test]
fn file_patterns_select_by_extension() {
    assert!(file_pattern_matches("*", "rs"));
    assert!(file_pattern_matches("*.rs", "rs"));
    assert!(!file_pattern_matches("*.rs", "py"));
}

#[test]
fn arguments_are_read_from_the_input_object() {
    let args = JsonValue::Object(vec![("path".to_string(), JsonValue::Str("a.txt".to_string()))]);
    assert_eq!(required_str(&args, "path"), Ok("a.txt".to_string()));
    assert_eq!(
        required_str(&args, "content"),
        Err(ToolError::InvalidArguments("Missing 'content' argument".to_string()))
    );
    assert_eq!(optional_str(&args, "file_pattern", "*"), "*");
    assert_eq!(optional_str(&args, "path", "."), "a.txt");
    assert_eq!(ToolError::NotFound("x".to_string()).message(), "Not found: x");
}
