use synthia_agent::json::JsonValue;
use synthia_agent::mcp::{default_mcp_config, MCPClient, MCPConfig, MCPError, MCPManager, MCPServerConfig};

fn server(command: &str) -> MCPServerConfig {
    MCPServerConfig { command: command.to_string(), args: vec![], env: vec![], timeout_seconds: 0 }
}

#[test]
fn default_config_has_no_servers() {
    assert!(default_mcp_config().servers.is_empty());
}

#[test]
fn connecting_an_unconfigured_server_fails() {
    let mut m = MCPManager::new(default_mcp_config());
    assert_eq!(m.connect_server("x"), Err(MCPError::ServerNotFound("x".to_string())));
    assert_eq!(m.disconnect_server("x"), Err(MCPError::ServerNotFound("x".to_string())));
}

#[test]
fn configured_server_connects_and_disconnects() {
    let config = MCPConfig { servers: vec![("files".to_string(), server("files-server"))] };
    let mut m = MCPManager::new(config);
    assert_eq!(m.connect_server("files"), Ok(()));
    assert_eq!(m.disconnect_server("files"), Ok(()));
    assert_eq!(m.disconnect_server("files"), Err(MCPError::ServerNotFound("files".to_string())));
}

#[test]
fn unknown_tools_are_reported() {
    let m = MCPManager::new(default_mcp_config());
    assert!(!m.has_tool("search"));
    assert!(m.list_tools().is_empty());
    assert_eq!(
        m.call_tool("search", &JsonValue::Null),
        Err(MCPError::ToolCallFailed("Unknown tool: search".to_string()))
    );
}

#[test]
fn client_without_transport() {
    let c = MCPClient::new("s".to_string(), server("cmd"));
    assert_eq!(c.name(), "s");
    assert_eq!(c.connect(), Ok(()));
    assert_eq!(c.list_tools(), Ok(vec![]));
    assert_eq!(
        c.call_tool("t", &JsonValue::Null),
        Err(MCPError::ToolCallFailed("MCP client not connected".to_string()))
    );
    assert_eq!(MCPError::Timeout("5s".to_string()).message(), "Timeout: 5s");
}
