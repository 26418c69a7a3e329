//! The registry of external tool servers: their configuration, which ones are
//! connected, and which server offers each tool.
use vstd::prelude::*;
use crate::json::JsonValue;
use crate::text::concat;

verus! {

/// How to start one tool server. `env` holds its environment, one entry per
/// variable name.
#[derive(Debug, Clone, PartialEq)]
pub struct MCPServerConfig {
    pub command: String,
    pub args: Vec<String>,
    pub env: Vec<(String, String)>,
    pub timeout_seconds: u64,
}

/// The configured servers, one entry per server name.
#[derive(Debug, Clone, PartialEq)]
pub struct MCPConfig {
    pub servers: Vec<(String, MCPServerConfig)>,
}

#[derive(Debug, Clone, PartialEq)]
pub enum MCPError {
    ConnectionFailed(String),
    ServerNotFound(String),
    ToolCallFailed(String),
    Timeout(String),
    ProtocolError(String),
}

pub open spec fn mcp_error_text(e: MCPError) -> Seq<char> {
    match e {
        MCPError::ConnectionFailed(d) => "Connection failed: "@ + d@,
        MCPError::ServerNotFound(d) => "Server not found: "@ + d@,
        MCPError::ToolCallFailed(d) => "Tool call failed: "@ + d@,
        MCPError::Timeout(d) => "Timeout: "@ + d@,
        MCPError::ProtocolError(d) => "Protocol error: "@ + d@,
    }
}

impl MCPError {
    /// The error's text, as the caller reports it.
    pub fn message(&self) -> (r: String)
        ensures
            r@ == mcp_error_text(*self),
    {
        let (head, detail) = match self {
            MCPError::ConnectionFailed(d) => ("Connection failed: ", d),
            MCPError::ServerNotFound(d) => ("Server not found: ", d),
            MCPError::ToolCallFailed(d) => ("Tool call failed: ", d),
            MCPError::Timeout(d) => ("Timeout: ", d),
            MCPError::ProtocolError(d) => ("Protocol error: ", d),
        };
        concat(head, detail.as_str())
    }
}

/// A tool that a server offers; `parameters` is the JSON text of its schema.
#[derive(Debug, Clone, PartialEq)]
pub struct McpTool {
    pub name: String,
    pub description: String,
    pub parameters: String,
}

/// The keys of a list of named entries.
pub open spec fn keys<X>(entries: Seq<(String, X)>) -> Seq<Seq<char>> {
    entries.map_values(|e: (String, X)| e.0@)
}

/// The position of the entry named `key`.
pub fn position_of<X>(entries: &Vec<(String, X)>, key: &str) -> (r: Option<usize>)
    ensures
        match r {
            Some(i) => i < entries@.len() && entries@[i as int].0@ == key@ && keys(entries@).contains(key@),
            None => !keys(entries@).contains(key@),
        },
{
    let wanted: String = key.to_owned();
    let mut i: usize = 0;
    while i < entries.len()
        invariant
            0 <= i <= entries.len(),
            wanted@ == key@,
            forall|k: int| 0 <= k < i ==> entries@[k].0@ != key@,
        decreases entries.len() - i,
    {
        if entries[i].0 == wanted {
            assert(keys(entries@)[i as int] == key@);
            return Some(i);
        }
        i = i + 1;
    }
    proof {
        if keys(entries@).contains(key@) {
            let k = choose|k: int| 0 <= k < keys(entries@).len() && keys(entries@)[k] == key@;
            assert(entries@[k].0@ == key@);
        }
    }
    None
}

/// A connection to one tool server.
#[derive(Debug, Clone, PartialEq)]
pub struct MCPClient {
    name: String,
    config: MCPServerConfig,
}

impl MCPClient {
    pub closed spec fn server_name(&self) -> Seq<char> {
        self.name@
    }

    pub fn new(name: String, config: MCPServerConfig) -> (r: MCPClient)
        ensures
            r.server_name() == name@,
            r.server_config() == config,
    {
        MCPClient { name, config }
    }

    pub fn name(&self) -> (r: &String)
        ensures
            r@ == self.server_name(),
    {
        &self.name
    }

    pub closed spec fn server_config(&self) -> MCPServerConfig {
        self.config
    }

    pub fn config(&self) -> (r: &MCPServerConfig)
        ensures
            *r == self.server_config(),
    {
        &self.config
    }

    /// Opens the connection; there is no transport behind it yet, so it
    /// always succeeds.
    pub fn connect(&self) -> (r: Result<(), MCPError>)
        ensures
            r is Ok,
    {
        Ok(())
    }

    pub fn disconnect(&self) {
    }

    /// The tools the server offers: none while no transport is behind it.
    pub fn list_tools(&self) -> (r: Result<Vec<McpTool>, MCPError>)
        ensures
            r matches Ok(v) && v@.len() == 0,
    {
        Ok(Vec::new())
    }

    /// Calls a tool on the server; without a transport it always fails.
    pub fn call_tool(&self, name: &str, arguments: &JsonValue) -> (r: Result<JsonValue, MCPError>)
        ensures
            r matches Err(MCPError::ToolCallFailed(m)) && m@ == "MCP client not connected"@,
    {
        Err(MCPError::ToolCallFailed("MCP client not connected".to_owned()))
    }
}

/// The connected servers and the tools they offer.
pub struct MCPManager {
    clients: Vec<(String, MCPClient)>,
    tools: Vec<(String, String)>,
    config: MCPConfig,
}

impl MCPManager {
    /// The names of the connected servers.
    pub closed spec fn connected(&self) -> Seq<Seq<char>> {
        keys(self.clients@)
    }

    /// Each offered tool with the name of the server that offers it.
    pub closed spec fn tool_servers(&self) -> Seq<(Seq<char>, Seq<char>)> {
        self.tools@.map_values(|e: (String, String)| (e.0@, e.1@))
    }

    /// The names of the offered tools.
    pub closed spec fn tool_names(&self) -> Seq<Seq<char>> {
        keys(self.tools@)
    }

    /// The names of the configured servers.
    pub closed spec fn configured(&self) -> Seq<Seq<char>> {
        keys(self.config.servers@)
    }

    pub fn new(config: MCPConfig) -> (r: MCPManager)
        ensures
            r.connected() == Seq::<Seq<char>>::empty(),
            r.tool_names() == Seq::<Seq<char>>::empty(),
            r.configured() == keys(config.servers@),
    {
        let r = MCPManager { clients: Vec::new(), tools: Vec::new(), config };
        assert(r.connected() =~= Seq::<Seq<char>>::empty());
        assert(r.tool_names() =~= Seq::<Seq<char>>::empty());
        r
    }

    /// Connects the configured server `name`; a connection to it made before is
    /// replaced.
    pub fn connect_server(&mut self, name: &str) -> (r: Result<(), MCPError>)
        ensures
            final(self).configured() == old(self).configured(),
            final(self).tool_names() == old(self).tool_names(),
            old(self).configured().contains(name@) ==> r is Ok && final(self).connected().contains(name@),
            !old(self).configured().contains(name@) ==> (r matches Err(MCPError::ServerNotFound(m)) && m@ == name@)
                && final(self).connected() == old(self).connected(),
    {
        let i = match position_of(&self.config.servers, name) {
            Some(i) => i,
            None => {
                return Err(MCPError::ServerNotFound(name.to_owned()));
            },
        };
        proof {
            assert(keys(self.config.servers@)[i as int] == name@);
        }
        let client = MCPClient::new(name.to_owned(), self.config.servers[i].1.clone());
        match client.connect() {
            Ok(()) => {},
            Err(e) => {
                return Err(e);
            },
        }
        let ghost before = self.clients@;
        match position_of(&self.clients, name) {
            Some(k) => {
                self.clients.set(k, (name.to_owned(), client));
                assert(keys(self.clients@)[k as int] == name@);
            },
            None => {
                self.clients.push((name.to_owned(), client));
                assert(keys(self.clients@)[self.clients@.len() - 1] == name@);
            },
        }
        Ok(())
    }

    /// Drops the connection to server `name` and every tool it offered.
    pub fn disconnect_server(&mut self, name: &str) -> (r: Result<(), MCPError>)
        ensures
            final(self).configured() == old(self).configured(),
            old(self).connected().contains(name@) ==> r is Ok && !final(self).connected().contains(name@)
                && (forall|i: int| 0 <= i < final(self).tool_servers().len() ==> (#[trigger] final(self).tool_servers()[i]).1 != name@),
            !old(self).connected().contains(name@) ==> (r matches Err(MCPError::ServerNotFound(m)) && m@ == name@)
                && final(self).connected() == old(self).connected(),
    {
        if position_of(&self.clients, name).is_none() {
            return Err(MCPError::ServerNotFound(name.to_owned()));
        }
        let server: String = name.to_owned();
        let mut kept_clients: Vec<(String, MCPClient)> = Vec::new();
        let mut i: usize = 0;
        while i < self.clients.len()
            invariant
                0 <= i <= self.clients.len(),
                server@ == name@,
                forall|k: int| 0 <= k < kept_clients@.len() ==> (#[trigger] kept_clients@[k]).0@ != name@,
            decreases self.clients.len() - i,
        {
            if self.clients[i].0 != server {
                kept_clients.push((self.clients[i].0.clone(), self.clients[i].1.clone()));
            } else {
                self.clients[i].1.disconnect();
            }
            i = i + 1;
        }
        let mut kept_tools: Vec<(String, String)> = Vec::new();
        let mut j: usize = 0;
        while j < self.tools.len()
            invariant
                0 <= j <= self.tools.len(),
                server@ == name@,
                forall|k: int| 0 <= k < kept_tools@.len() ==> (#[trigger] kept_tools@[k]).1@ != name@,
            decreases self.tools.len() - j,
        {
            if self.tools[j].1 != server {
                kept_tools.push((self.tools[j].0.clone(), self.tools[j].1.clone()));
            }
            j = j + 1;
        }
        self.clients = kept_clients;
        self.tools = kept_tools;
        proof {
            if self.connected().contains(name@) {
                let k = choose|k: int| 0 <= k < self.connected().len() && self.connected()[k] == name@;
                assert(self.clients@[k].0@ == name@);
            }
            assert forall|k: int| 0 <= k < self.tool_servers().len() implies (#[trigger] self.tool_servers()[k]).1 != name@ by {
                assert(self.tools@[k].1@ != name@);
            }
        }
        Ok(())
    }

    /// Calls tool `tool_name` on the server that offers it.
    pub fn call_tool(&self, tool_name: &str, arguments: &JsonValue) -> (r: Result<JsonValue, MCPError>)
        ensures
            r is Err,
            !self.tool_names().contains(tool_name@) ==> (r matches Err(MCPError::ToolCallFailed(m)) && m@
                == "Unknown tool: "@ + tool_name@),
    {
        let i = match position_of(&self.tools, tool_name) {
            Some(i) => i,
            None => {
                return Err(MCPError::ToolCallFailed(concat("Unknown tool: ", tool_name)));
            },
        };
        let server = &self.tools[i].1;
        match position_of(&self.clients, server.as_str()) {
            Some(k) => self.clients[k].1.call_tool(tool_name, arguments),
            None => Err(MCPError::ServerNotFound(server.clone())),
        }
    }

    /// The names of the offered tools.
    pub fn list_tools(&self) -> (r: Vec<String>)
        ensures
            r@.map_values(|s: String| s@) == self.tool_names(),
    {
        let mut r: Vec<String> = Vec::new();
        let mut i: usize = 0;
        while i < self.tools.len()
            invariant
                0 <= i <= self.tools.len(),
                crate::tools::texts(r@) == keys(self.tools@.subrange(0, i as int)),
            decreases self.tools.len() - i,
        {
            let ghost prev = r@;
            let name = self.tools[i].0.clone();
            r.push(name);
            assert(crate::tools::texts(r@) =~= crate::tools::texts(prev).push(name@));
            assert(keys(self.tools@.subrange(0, i + 1)) =~= keys(self.tools@.subrange(0, i as int)).push(name@));
            i = i + 1;
        }
        assert(self.tools@.subrange(0, i as int) =~= self.tools@);
        r
    }

    pub fn has_tool(&self, name: &str) -> (r: bool)
        ensures
            r == self.tool_names().contains(name@),
    {
        position_of(&self.tools, name).is_some()
    }
}

/// The configuration with no servers.
pub fn default_mcp_config() -> (r: MCPConfig)
    ensures
        r.servers@.len() == 0,
{
    MCPConfig { servers: Vec::new() }
}

} // verus!
