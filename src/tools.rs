//! The tool registry, the metadata each built-in tool offers, and the parts of
//! the built-in tools that decide rather than do input or output.
use vstd::prelude::*;
use vstd::string::*;
use std::path::PathBuf;
use crate::clients::ToolDefinition;
use crate::json::{JsonValue, field};
use crate::text::{chars_of, find_in, trim, trimmed, concat, ends_with, first_index, first_segment, has_prefix, has_suffix, find, segment_before, starts_with, strip_all, strip_prefixes};

verus! {

#[verifier::external_type_specification]
#[verifier::external_body]
pub struct ExPathBuf(PathBuf);

/// Relies on `PathBuf::clone`: a copy of the path, for each tool that shares it.
pub assume_specification[ <PathBuf as Clone>::clone ](p: &PathBuf) -> PathBuf;

#[derive(Debug, Clone, PartialEq)]
pub enum ToolError {
    ExecutionFailed(String),
    InvalidArguments(String),
    IoError(String),
    NotFound(String),
}

pub open spec fn tool_error_text(e: ToolError) -> Seq<char> {
    match e {
        ToolError::ExecutionFailed(d) => "Execution failed: "@ + d@,
        ToolError::InvalidArguments(d) => "Invalid arguments: "@ + d@,
        ToolError::IoError(d) => "IO error: "@ + d@,
        ToolError::NotFound(d) => "Not found: "@ + d@,
    }
}

impl ToolError {
    /// The error's text, as the run reports it.
    pub fn message(&self) -> (r: String)
        ensures
            r@ == tool_error_text(*self),
    {
        let (head, detail) = match self {
            ToolError::ExecutionFailed(d) => ("Execution failed: ", d),
            ToolError::InvalidArguments(d) => ("Invalid arguments: ", d),
            ToolError::IoError(d) => ("IO error: ", d),
            ToolError::NotFound(d) => ("Not found: ", d),
        };
        concat(head, detail.as_str())
    }
}

/// What a tool tells the prompt about itself; `parameters` is the JSON text of
/// its parameter schema.
#[derive(Debug, Clone, PartialEq)]
pub struct ToolInfo {
    pub name: String,
    pub description: String,
    pub parameters: String,
}

impl ToolInfo {
    /// A copy with the same fields.
    pub fn duplicate(&self) -> (r: ToolInfo)
        ensures
            r == *self,
    {
        ToolInfo {
            name: self.name.clone(),
            description: self.description.clone(),
            parameters: self.parameters.clone(),
        }
    }
}

/// The texts of a list of strings.
pub open spec fn texts(v: Seq<String>) -> Seq<Seq<char>> {
    v.map_values(|s: String| s@)
}

/// The definitions that the prompt shows for tools with the given metadata.
pub open spec fn definitions_of(infos: Seq<ToolInfo>) -> Seq<ToolDefinition> {
    infos.map_values(
        |i: ToolInfo| ToolDefinition { name: i.name, description: i.description, parameters: i.parameters },
    )
}

/// A registered tool and its metadata.
pub struct ToolEntry<T> {
    pub info: ToolInfo,
    pub tool: T,
}

/// Tools keyed by name: at most one per name, in the order of their first
/// registration.
pub struct ToolManager<T> {
    entries: Vec<ToolEntry<T>>,
}

impl<T> ToolManager<T> {
    /// The metadata of the tools, in order.
    pub closed spec fn infos(&self) -> Seq<ToolInfo> {
        self.entries@.map_values(|e: ToolEntry<T>| e.info)
    }

    /// The tool at position `i`.
    pub closed spec fn tool_at(&self, i: int) -> T {
        self.entries@[i].tool
    }

    /// The names of the tools, in order.
    pub open spec fn names(&self) -> Seq<Seq<char>> {
        self.infos().map_values(|i: ToolInfo| i.name@)
    }

    pub open spec fn registered(&self, name: Seq<char>) -> bool {
        self.names().contains(name)
    }

    pub open spec fn wf(&self) -> bool {
        forall|i: int, j: int|
            0 <= i < j < self.names().len() ==> self.names()[i] != self.names()[j]
    }

    pub fn new() -> (r: ToolManager<T>)
        ensures
            r.wf(),
            r.infos() == Seq::<ToolInfo>::empty(),
    {
        let r = ToolManager { entries: Vec::new() };
        assert(r.infos() =~= Seq::<ToolInfo>::empty());
        r
    }

    /// The position of the tool named `name`.
    fn position(&self, name: &str) -> (r: Option<usize>)
        ensures
            match r {
                Some(i) => i < self.names().len() && self.names()[i as int] == name@,
                None => !self.registered(name@),
            },
    {
        let wanted: String = name.to_owned();
        let mut i: usize = 0;
        while i < self.entries.len()
            invariant
                0 <= i <= self.entries.len(),
                wanted@ == name@,
                self.names().len() == self.entries@.len(),
                forall|k: int| 0 <= k < i ==> self.names()[k] != name@,
            decreases self.entries.len() - i,
        {
            if self.entries[i].info.name == wanted {
                return Some(i);
            }
            i = i + 1;
        }
        proof {
            if self.registered(name@) {
                let k = choose|k: int| 0 <= k < self.names().len() && self.names()[k] == name@;
                assert(self.names()[k] != name@);
            }
        }
        None
    }

    /// Registers a tool under the name its metadata gives; a tool registered
    /// before under that name is replaced in place.
    pub fn register(&mut self, info: ToolInfo, tool: T)
        requires
            old(self).wf(),
        ensures
            final(self).wf(),
            old(self).registered(info.name@) ==> final(self).names() == old(self).names(),
            !old(self).registered(info.name@) ==> final(self).names() == old(self).names().push(info.name@),
            final(self).registered(info.name@),
            forall|n: Seq<char>| n != info.name@ ==> (final(self).registered(n) == old(self).registered(n)),
            forall|i: int|
                0 <= i < final(self).names().len() ==> if final(self).names()[i] == info.name@ {
                    final(self).tool_at(i) == tool
                } else {
                    final(self).tool_at(i) == old(self).tool_at(i)
                },
    {
        let ghost name = info.name@;
        let ghost old_infos = self.infos();
        match self.position(info.name.as_str()) {
            Some(i) => {
                self.entries.set(i, ToolEntry { info, tool });
                assert(self.infos() =~= old_infos.update(i as int, self.entries@[i as int].info));
                assert(self.names() =~= old(self).names());
            },
            None => {
                self.entries.push(ToolEntry { info, tool });
                assert(self.infos() =~= old_infos.push(self.entries@.last().info));
                assert(self.names() =~= old(self).names().push(name));
                assert(self.names()[self.names().len() - 1] == name);
                assert forall|n: Seq<char>| n != name implies (self.registered(n) == old(self).registered(n)) by {
                    if old(self).registered(n) {
                        let k = choose|k: int| 0 <= k < old(self).names().len() && old(self).names()[k] == n;
                        assert(self.names()[k] == n);
                    }
                    if self.registered(n) {
                        let k = choose|k: int| 0 <= k < self.names().len() && self.names()[k] == n;
                        assert(k < old(self).names().len());
                        assert(old(self).names()[k] == n);
                    }
                }
            },
        }
    }

    /// The tool registered under `name`.
    pub fn get(&self, name: &str) -> (r: Option<&T>)
        ensures
            r is Some <==> self.registered(name@),
            r matches Some(t) ==> exists|i: int|
                0 <= i < self.names().len() && self.names()[i] == name@ && *t == self.tool_at(i),
    {
        match self.position(name) {
            Some(i) => {
                assert(self.tool_at(i as int) == self.entries@[i as int].tool);
                Some(&self.entries[i].tool)
            },
            None => None,
        }
    }

    /// The names of the tools, in order.
    pub fn list(&self) -> (r: Vec<String>)
        ensures
            texts(r@) == self.names(),
    {
        let mut r: Vec<String> = Vec::new();
        let mut i: usize = 0;
        while i < self.entries.len()
            invariant
                0 <= i <= self.entries.len(),
                self.names().len() == self.entries@.len(),
                texts(r@) == self.names().subrange(0, i as int),
            decreases self.entries.len() - i,
        {
            assert(self.names()[i as int] == self.entries@[i as int].info.name@);
            let ghost prev = r@;
            let name = self.entries[i].info.name.clone();
            r.push(name);
            assert(texts(r@) =~= texts(prev).push(name@));
            assert(self.names().subrange(0, i + 1) =~= self.names().subrange(0, i as int).push(name@));
            i = i + 1;
        }
        assert(self.names().subrange(0, i as int) =~= self.names());
        r
    }

    /// What the prompt tells the model about each tool, in order.
    pub fn get_definitions(&self) -> (r: Vec<ToolDefinition>)
        ensures
            r@ == definitions_of(self.infos()),
            r@.len() == self.infos().len(),
            forall|i: int|
                0 <= i < r@.len() ==> (#[trigger] r@[i]).name == self.infos()[i].name
                    && r@[i].description == self.infos()[i].description && r@[i].parameters
                    == self.infos()[i].parameters,
    {
        let mut r: Vec<ToolDefinition> = Vec::new();
        let mut i: usize = 0;
        while i < self.entries.len()
            invariant
                0 <= i <= self.entries.len(),
                self.infos().len() == self.entries@.len(),
                r@.len() == i,
                forall|k: int|
                    0 <= k < i ==> (#[trigger] r@[k]).name == self.infos()[k].name
                        && r@[k].description == self.infos()[k].description && r@[k].parameters
                        == self.infos()[k].parameters,
            decreases self.entries.len() - i,
        {
            let info = &self.entries[i].info;
            r.push(
                ToolDefinition {
                    name: info.name.clone(),
                    description: info.description.clone(),
                    parameters: info.parameters.clone(),
                },
            );
            i = i + 1;
        }
        assert(r@ =~= definitions_of(self.infos()));
        r
    }
}

/// The built-in tool `read_file`: read the contents of a file, under a base directory.
pub struct FileReadTool {
    base_path: PathBuf,
}

impl FileReadTool {
    pub closed spec fn base(&self) -> PathBuf {
        self.base_path
    }

    pub fn new(base_path: PathBuf) -> (r: FileReadTool)
        ensures
            r.base() == base_path,
    {
        FileReadTool { base_path }
    }

    /// The directory that relative paths are resolved against.
    pub fn base_path(&self) -> (r: &PathBuf)
        ensures
            *r == self.base(),
    {
        &self.base_path
    }

    pub fn info(&self) -> (r: ToolInfo)
        ensures
            r.name@ == "read_file"@,
            r.description@ == "Read the contents of a file"@,
            r.parameters@ == "{\"type\":\"object\",\"properties\":{\"path\":{\"type\":\"string\",\"description\":\"Path to the file to read\"}},\"required\":[\"path\"]}"@,
    {
        ToolInfo {
            name: "read_file".to_owned(),
            description: "Read the contents of a file".to_owned(),
            parameters: "{\"type\":\"object\",\"properties\":{\"path\":{\"type\":\"string\",\"description\":\"Path to the file to read\"}},\"required\":[\"path\"]}".to_owned(),
        }
    }
}

/// The built-in tool `write_file`: write content to a file, under a base directory.
pub struct FileWriteTool {
    base_path: PathBuf,
}

impl FileWriteTool {
    pub closed spec fn base(&self) -> PathBuf {
        self.base_path
    }

    pub fn new(base_path: PathBuf) -> (r: FileWriteTool)
        ensures
            r.base() == base_path,
    {
        FileWriteTool { base_path }
    }

    /// The directory that relative paths are resolved against.
    pub fn base_path(&self) -> (r: &PathBuf)
        ensures
            *r == self.base(),
    {
        &self.base_path
    }

    pub fn info(&self) -> (r: ToolInfo)
        ensures
            r.name@ == "write_file"@,
            r.description@ == "Write content to a file"@,
            r.parameters@ == "{\"type\":\"object\",\"properties\":{\"path\":{\"type\":\"string\",\"description\":\"Path to the file to write\"},\"content\":{\"type\":\"string\",\"description\":\"Content to write to the file\"}},\"required\":[\"path\",\"content\"]}"@,
    {
        ToolInfo {
            name: "write_file".to_owned(),
            description: "Write content to a file".to_owned(),
            parameters: "{\"type\":\"object\",\"properties\":{\"path\":{\"type\":\"string\",\"description\":\"Path to the file to write\"},\"content\":{\"type\":\"string\",\"description\":\"Content to write to the file\"}},\"required\":[\"path\",\"content\"]}".to_owned(),
        }
    }
}

/// The built-in tool `list_dir`: list directory contents, under a base directory.
pub struct ListDirTool {
    base_path: PathBuf,
}

impl ListDirTool {
    pub closed spec fn base(&self) -> PathBuf {
        self.base_path
    }

    pub fn new(base_path: PathBuf) -> (r: ListDirTool)
        ensures
            r.base() == base_path,
    {
        ListDirTool { base_path }
    }

    /// The directory that relative paths are resolved against.
    pub fn base_path(&self) -> (r: &PathBuf)
        ensures
            *r == self.base(),
    {
        &self.base_path
    }

    pub fn info(&self) -> (r: ToolInfo)
        ensures
            r.name@ == "list_dir"@,
            r.description@ == "List directory contents"@,
            r.parameters@ == "{\"type\":\"object\",\"properties\":{\"path\":{\"type\":\"string\",\"description\":\"Path to the directory to list\"}},\"required\":[\"path\"]}"@,
    {
        ToolInfo {
            name: "list_dir".to_owned(),
            description: "List directory contents".to_owned(),
            parameters: "{\"type\":\"object\",\"properties\":{\"path\":{\"type\":\"string\",\"description\":\"Path to the directory to list\"}},\"required\":[\"path\"]}".to_owned(),
        }
    }
}

/// The built-in tool `grep`: search for a pattern in files, under a base directory.
pub struct GrepTool {
    base_path: PathBuf,
}

impl GrepTool {
    pub closed spec fn base(&self) -> PathBuf {
        self.base_path
    }

    pub fn new(base_path: PathBuf) -> (r: GrepTool)
        ensures
            r.base() == base_path,
    {
        GrepTool { base_path }
    }

    /// The directory that relative paths are resolved against.
    pub fn base_path(&self) -> (r: &PathBuf)
        ensures
            *r == self.base(),
    {
        &self.base_path
    }

    pub fn info(&self) -> (r: ToolInfo)
        ensures
            r.name@ == "grep"@,
            r.description@ == "Search for a pattern in files"@,
            r.parameters@ == "{\"type\":\"object\",\"properties\":{\"pattern\":{\"type\":\"string\",\"description\":\"Pattern to search for\"},\"path\":{\"type\":\"string\",\"description\":\"Path to search in (default: current directory)\"},\"file_pattern\":{\"type\":\"string\",\"description\":\"File pattern to match (e.g., *.rs)\"}},\"required\":[\"pattern\"]}"@,
    {
        ToolInfo {
            name: "grep".to_owned(),
            description: "Search for a pattern in files".to_owned(),
            parameters: "{\"type\":\"object\",\"properties\":{\"pattern\":{\"type\":\"string\",\"description\":\"Pattern to search for\"},\"path\":{\"type\":\"string\",\"description\":\"Path to search in (default: current directory)\"},\"file_pattern\":{\"type\":\"string\",\"description\":\"File pattern to match (e.g., *.rs)\"}},\"required\":[\"pattern\"]}".to_owned(),
        }
    }
}

/// The built-in tool `run_command`: run a shell command, under a base directory.
pub struct RunCommandTool {
    base_path: PathBuf,
}

impl RunCommandTool {
    pub closed spec fn base(&self) -> PathBuf {
        self.base_path
    }

    pub fn new(base_path: PathBuf) -> (r: RunCommandTool)
        ensures
            r.base() == base_path,
    {
        RunCommandTool { base_path }
    }

    /// The directory that relative paths are resolved against.
    pub fn base_path(&self) -> (r: &PathBuf)
        ensures
            *r == self.base(),
    {
        &self.base_path
    }

    pub fn info(&self) -> (r: ToolInfo)
        ensures
            r.name@ == "run_command"@,
            r.description@ == "Run a shell command"@,
            r.parameters@ == "{\"type\":\"object\",\"properties\":{\"command\":{\"type\":\"string\",\"description\":\"Command to run\"}},\"required\":[\"command\"]}"@,
    {
        ToolInfo {
            name: "run_command".to_owned(),
            description: "Run a shell command".to_owned(),
            parameters: "{\"type\":\"object\",\"properties\":{\"command\":{\"type\":\"string\",\"description\":\"Command to run\"}},\"required\":[\"command\"]}".to_owned(),
        }
    }
}

/// The built-in tool `glob`: find files matching a pattern, under a base directory.
pub struct GlobTool {
    base_path: PathBuf,
}

impl GlobTool {
    pub closed spec fn base(&self) -> PathBuf {
        self.base_path
    }

    pub fn new(base_path: PathBuf) -> (r: GlobTool)
        ensures
            r.base() == base_path,
    {
        GlobTool { base_path }
    }

    /// The directory that relative paths are resolved against.
    pub fn base_path(&self) -> (r: &PathBuf)
        ensures
            *r == self.base(),
    {
        &self.base_path
    }

    pub fn info(&self) -> (r: ToolInfo)
        ensures
            r.name@ == "glob"@,
            r.description@ == "Find files matching a pattern"@,
            r.parameters@ == "{\"type\":\"object\",\"properties\":{\"pattern\":{\"type\":\"string\",\"description\":\"Glob pattern (e.g., **/*.rs)\"},\"path\":{\"type\":\"string\",\"description\":\"Base path to search from\"}},\"required\":[\"pattern\"]}"@,
    {
        ToolInfo {
            name: "glob".to_owned(),
            description: "Find files matching a pattern".to_owned(),
            parameters: "{\"type\":\"object\",\"properties\":{\"pattern\":{\"type\":\"string\",\"description\":\"Glob pattern (e.g., **/*.rs)\"},\"path\":{\"type\":\"string\",\"description\":\"Base path to search from\"}},\"required\":[\"pattern\"]}".to_owned(),
        }
    }
}

/// The built-in tools, one variant per capability.
pub enum BuiltinTool {
    ReadFile(FileReadTool),
    WriteFile(FileWriteTool),
    ListDir(ListDirTool),
    Grep(GrepTool),
    RunCommand(RunCommandTool),
    Glob(GlobTool),
}

/// The name under which a built-in tool registers.
pub open spec fn builtin_name(t: BuiltinTool) -> Seq<char> {
    match t {
        BuiltinTool::ReadFile(_) => "read_file"@,
        BuiltinTool::WriteFile(_) => "write_file"@,
        BuiltinTool::ListDir(_) => "list_dir"@,
        BuiltinTool::Grep(_) => "grep"@,
        BuiltinTool::RunCommand(_) => "run_command"@,
        BuiltinTool::Glob(_) => "glob"@,
    }
}

impl BuiltinTool {
    pub fn info(&self) -> (r: ToolInfo)
        ensures
            r.name@ == builtin_name(*self),
    {
        match self {
            BuiltinTool::ReadFile(t) => t.info(),
            BuiltinTool::WriteFile(t) => t.info(),
            BuiltinTool::ListDir(t) => t.info(),
            BuiltinTool::Grep(t) => t.info(),
            BuiltinTool::RunCommand(t) => t.info(),
            BuiltinTool::Glob(t) => t.info(),
        }
    }
}

/// A registry of the built-in tools, all under `base_path`.
pub fn default_tools(base_path: PathBuf) -> (r: ToolManager<BuiltinTool>)
    ensures
        r.wf(),
        r.names() == seq!["read_file"@, "write_file"@, "list_dir"@, "grep"@, "run_command"@, "glob"@],
{
    let mut manager: ToolManager<BuiltinTool> = ToolManager::new();
    proof {
        reveal_strlit("read_file");
        reveal_strlit("write_file");
        reveal_strlit("list_dir");
        reveal_strlit("grep");
        reveal_strlit("run_command");
        reveal_strlit("glob");
    }
    let t = FileReadTool::new(base_path.clone());
    manager.register(t.info(), BuiltinTool::ReadFile(t));
    assert(manager.names() =~= seq!["read_file"@]);
    let t = FileWriteTool::new(base_path.clone());
    assert(!manager.registered("write_file"@)) by {
        assert forall|k: int| 0 <= k < manager.names().len() implies manager.names()[k] != "write_file"@ by {
            assert(manager.names()[k].len() != "write_file"@.len() || manager.names()[k][1] != "write_file"@[1] || manager.names()[k][0] != "write_file"@[0]);
        }
    }
    manager.register(t.info(), BuiltinTool::WriteFile(t));
    assert(manager.names() =~= seq!["read_file"@, "write_file"@]);
    let t = ListDirTool::new(base_path.clone());
    assert(!manager.registered("list_dir"@)) by {
        assert forall|k: int| 0 <= k < manager.names().len() implies manager.names()[k] != "list_dir"@ by {
            assert(manager.names()[k].len() != "list_dir"@.len() || manager.names()[k][1] != "list_dir"@[1] || manager.names()[k][0] != "list_dir"@[0]);
        }
    }
    manager.register(t.info(), BuiltinTool::ListDir(t));
    assert(manager.names() =~= seq!["read_file"@, "write_file"@, "list_dir"@]);
    let t = GrepTool::new(base_path.clone());
    assert(!manager.registered("grep"@)) by {
        assert forall|k: int| 0 <= k < manager.names().len() implies manager.names()[k] != "grep"@ by {
            assert(manager.names()[k].len() != "grep"@.len() || manager.names()[k][1] != "grep"@[1] || manager.names()[k][0] != "grep"@[0]);
        }
    }
    manager.register(t.info(), BuiltinTool::Grep(t));
    assert(manager.names() =~= seq!["read_file"@, "write_file"@, "list_dir"@, "grep"@]);
    let t = RunCommandTool::new(base_path.clone());
    assert(!manager.registered("run_command"@)) by {
        assert forall|k: int| 0 <= k < manager.names().len() implies manager.names()[k] != "run_command"@ by {
            assert(manager.names()[k].len() != "run_command"@.len() || manager.names()[k][1] != "run_command"@[1] || manager.names()[k][0] != "run_command"@[0]);
        }
    }
    manager.register(t.info(), BuiltinTool::RunCommand(t));
    assert(manager.names() =~= seq!["read_file"@, "write_file"@, "list_dir"@, "grep"@, "run_command"@]);
    let t = GlobTool::new(base_path.clone());
    assert(!manager.registered("glob"@)) by {
        assert forall|k: int| 0 <= k < manager.names().len() implies manager.names()[k] != "glob"@ by {
            assert(manager.names()[k].len() != "glob"@.len() || manager.names()[k][1] != "glob"@[1] || manager.names()[k][0] != "glob"@[0]);
        }
    }
    manager.register(t.info(), BuiltinTool::Glob(t));
    assert(manager.names() =~= seq!["read_file"@, "write_file"@, "list_dir"@, "grep"@, "run_command"@, "glob"@]);
    manager
}

/// The text of a missing-argument error.
pub open spec fn missing_text(key: Seq<char>) -> Seq<char> {
    "Missing '"@ + key + "' argument"@
}

/// The string argument `key`, which the tool cannot do without.
pub fn required_str(args: &JsonValue, key: &str) -> (r: Result<String, ToolError>)
    ensures
        match field(*args, key@) {
            Some(JsonValue::Str(s)) => r == Ok::<String, ToolError>(s),
            _ => r matches Err(ToolError::InvalidArguments(m)) && m@ == missing_text(key@),
        },
{
    if let JsonValue::Object(entries) = args {
        if let Some(JsonValue::Str(s)) = crate::json::get_member(entries, key) {
            return Ok(s.clone());
        }
    }
    Err(ToolError::InvalidArguments(concat(concat("Missing '", key).as_str(), "' argument").as_str().to_owned()))
}

/// The string argument `key`, or `default` where it is absent.
pub fn optional_str(args: &JsonValue, key: &str, default: &str) -> (r: String)
    ensures
        match field(*args, key@) {
            Some(JsonValue::Str(s)) => r == s,
            _ => r@ == default@,
        },
{
    if let JsonValue::Object(entries) = args {
        if let Some(JsonValue::Str(s)) = crate::json::get_member(entries, key) {
            return s.clone();
        }
    }
    default.to_owned()
}

/// Whether `name` matches `pattern`, where '*' stands for any run of bytes and
/// '?' for any one byte.
pub open spec fn glob_match(name: Seq<u8>, pattern: Seq<u8>) -> bool
    decreases name.len() + pattern.len(),
{
    if pattern.len() == 0 {
        name.len() == 0
    } else if pattern.last() == 42u8 {
        glob_match(name, pattern.drop_last()) || (name.len() > 0 && glob_match(name.drop_last(), pattern))
    } else if name.len() == 0 {
        false
    } else if pattern.last() == 63u8 || pattern.last() == name.last() {
        glob_match(name.drop_last(), pattern.drop_last())
    } else {
        false
    }
}

/// Whether the bytes of `name` match the wildcard `pattern` (see `glob_match`).
pub fn wildcard_match(name: &str, pattern: &str) -> (r: bool)
    ensures
        r == glob_match(name.spec_bytes(), pattern.spec_bytes()),
{
    let nb = name.as_bytes();
    let pb = pattern.as_bytes();
    let n = nb.len();
    let m = pb.len();
    let ghost ns = nb@;
    let ghost ps = pb@;
    let mut prev: Vec<bool> = Vec::new();
    prev.push(true);
    assert(ns.subrange(0, 0).len() == 0 && ps.subrange(0, 0).len() == 0);
    let mut j: usize = 0;
    while j < m
        invariant
            0 <= j <= m,
            m == ps.len(),
            ps == pb@,
            prev@.len() == j + 1,
            forall|k: int| 0 <= k <= j ==> prev@[k] == glob_match(ns.subrange(0, 0), #[trigger] ps.subrange(0, k)),
        decreases m - j,
    {
        let v = pb[j] == 42u8 && prev[j];
        proof {
            let pj = ps.subrange(0, j + 1);
            assert(pj.drop_last() =~= ps.subrange(0, j as int));
            assert(pj.last() == ps[j as int]);
        }
        prev.push(v);
        j = j + 1;
    }
    let mut i: usize = 0;
    while i < n
        invariant
            0 <= i <= n,
            n == ns.len(),
            m == ps.len(),
            ns == nb@,
            ps == pb@,
            prev@.len() == m + 1,
            forall|k: int| 0 <= k <= m ==> prev@[k] == glob_match(ns.subrange(0, i as int), #[trigger] ps.subrange(0, k)),
        decreases n - i,
    {
        let mut cur: Vec<bool> = Vec::new();
        cur.push(false);
        let ghost ni = ns.subrange(0, i + 1);
        assert(ni.drop_last() =~= ns.subrange(0, i as int));
        assert(ni.last() == ns[i as int]);
        assert(ps.subrange(0, 0).len() == 0);
        let mut j: usize = 0;
        while j < m
            invariant
                0 <= j <= m,
                0 <= i < n,
                n == ns.len(),
                m == ps.len(),
                ns == nb@,
                ps == pb@,
                ni == ns.subrange(0, i + 1),
                ni.drop_last() == ns.subrange(0, i as int),
                ni.last() == ns[i as int],
                prev@.len() == m + 1,
                forall|k: int| 0 <= k <= m ==> prev@[k] == glob_match(ns.subrange(0, i as int), #[trigger] ps.subrange(0, k)),
                cur@.len() == j + 1,
                forall|k: int| 0 <= k <= j ==> cur@[k] == glob_match(ni, #[trigger] ps.subrange(0, k)),
            decreases m - j,
        {
            let c = pb[j];
            let v = if c == 42u8 {
                prev[j + 1] || cur[j]
            } else if c == 63u8 || c == nb[i] {
                prev[j]
            } else {
                false
            };
            proof {
                let pj = ps.subrange(0, j + 1);
                assert(pj.drop_last() =~= ps.subrange(0, j as int));
                assert(pj.last() == ps[j as int]);
            }
            cur.push(v);
            j = j + 1;
        }
        prev = cur;
        i = i + 1;
    }
    assert(ns.subrange(0, n as int) =~= ns);
    assert(ps.subrange(0, m as int) =~= ps);
    prev[m]
}

/// Whether a file name matches a search pattern: a pattern with a "**"
/// prefix or a "**/" segment matches by what follows it; where that still
/// holds a '/', by its first segment or by its ending.
pub open spec fn name_matches(name: Seq<char>, pattern: Seq<char>) -> bool {
    if first_index(pattern, "**/"@) is Some || starts_with(pattern, "**"@) {
        let suffix = strip_all(strip_all(pattern, "**/"@), "**"@);
        if first_index(suffix, "/"@) is Some {
            name == first_segment(suffix, "/"@) || ends_with(name, strip_all(suffix, "*"@))
        } else {
            glob_match(vstd::utf8::encode_utf8(name), vstd::utf8::encode_utf8(suffix))
        }
    } else {
        glob_match(vstd::utf8::encode_utf8(name), vstd::utf8::encode_utf8(pattern))
    }
}

pub fn matches_wildcard(name: &str, pattern: &str) -> (r: bool)
    ensures
        r == name_matches(name@, pattern@),
{
    if find(pattern, "**/").is_some() || has_prefix(pattern, "**") {
        let suffix = strip_prefixes(strip_prefixes(pattern, "**/").as_str(), "**");
        if find(suffix.as_str(), "/").is_some() {
            let head = segment_before(suffix.as_str(), "/");
            let tail = strip_prefixes(suffix.as_str(), "*");
            name.to_owned() == head || has_suffix(name, tail.as_str())
        } else {
            wildcard_match(name, suffix.as_str())
        }
    } else {
        wildcard_match(name, pattern)
    }
}

/// Whether a file with extension `ext` is searched under `file_pattern`:
/// "*" takes every file, "*.<ext>" the files with that extension.
pub fn file_pattern_matches(file_pattern: &str, ext: &str) -> (r: bool)
    ensures
        r == (file_pattern@ == "*"@ || file_pattern@ == "*."@ + ext@),
{
    let wanted = concat("*.", ext);
    let given = file_pattern.to_owned();
    given == "*".to_owned() || given == wanted
}

/// A line without the carriage return of a "\r\n" ending.
pub open spec fn strip_cr_char(line: Seq<char>) -> Seq<char> {
    if line.len() > 0 && line.last() == '\r' {
        line.drop_last()
    } else {
        line
    }
}

/// The lines that `text` ends, and the text after the last line feed.
pub open spec fn split_text(text: Seq<char>) -> (Seq<Seq<char>>, Seq<char>)
    decreases text.len(),
{
    if text.len() == 0 {
        (Seq::empty(), Seq::empty())
    } else {
        let prev = split_text(text.drop_last());
        if text.last() == '\n' {
            (prev.0.push(strip_cr_char(prev.1)), Seq::empty())
        } else {
            (prev.0, prev.1.push(text.last()))
        }
    }
}

/// The lines of a text, as `str::lines` splits it.
pub open spec fn text_lines(text: Seq<char>) -> Seq<Seq<char>> {
    let split = split_text(text);
    if split.1.len() > 0 {
        split.0.push(split.1)
    } else {
        split.0
    }
}

/// The lines that hold `pattern`: each with its number, counted from one, and
/// its text trimmed.
pub open spec fn hits(lines: Seq<Seq<char>>, pattern: Seq<char>) -> Seq<(nat, Seq<char>)>
    decreases lines.len(),
{
    if lines.len() == 0 {
        Seq::empty()
    } else if first_index(lines.last(), pattern) is Some {
        hits(lines.drop_last(), pattern).push((lines.len(), trimmed(lines.last())))
    } else {
        hits(lines.drop_last(), pattern)
    }
}

pub open spec fn hit_views(v: Seq<(usize, String)>) -> Seq<(nat, Seq<char>)> {
    v.map_values(|h: (usize, String)| (h.0 as nat, h.1@))
}

/// Adds the hit of one line, numbered `number`, where it holds the pattern.
fn check_line(
    text: &str,
    from: usize,
    to: usize,
    number: usize,
    pattern: &Vec<char>,
    out: &mut Vec<(usize, String)>,
)
    requires
        from <= to <= text@.len(),
    ensures
        ({
            let line = text@.subrange(from as int, to as int);
            hit_views(final(out)@) == if first_index(line, pattern@) is Some {
                hit_views(old(out)@).push((number as nat, trimmed(line)))
            } else {
                hit_views(old(out)@)
            }
        }),
{
    let line = crate::text::slice(text, from, to);
    if find_in(&chars_of(line.as_str()), pattern).is_some() {
        let h = (number, trim(line.as_str()));
        out.push(h);
        assert(hit_views(out@) =~= hit_views(old(out)@).push((number as nat, trimmed(line@))));
    }
}

/// The lines of `content` that hold `pattern`, numbered from one, trimmed.
pub fn search_lines(content: &str, pattern: &str) -> (r: Vec<(usize, String)>)
    ensures
        hit_views(r@) == hits(text_lines(content@), pattern@),
{
    let cs = chars_of(content);
    let pc = chars_of(pattern);
    let n = cs.len();
    let mut out: Vec<(usize, String)> = Vec::new();
    let mut start: usize = 0;
    let mut count: usize = 0;
    let mut i: usize = 0;
    let ghost lines: Seq<Seq<char>> = Seq::empty();
    assert(cs@.subrange(0, 0) =~= Seq::<char>::empty());
    assert(hit_views(out@) =~= hits(lines, pc@));
    while i < n
        invariant
            n == cs@.len(),
            cs@ == content@,
            pc@ == pattern@,
            0 <= start <= i <= n,
            count == lines.len(),
            count <= start,
            split_text(cs@.subrange(0, i as int)) == (lines, cs@.subrange(start as int, i as int)),
            hit_views(out@) == hits(lines, pattern@),
        decreases n - i,
    {
        let ghost pre = cs@.subrange(0, i + 1);
        assert(pre.drop_last() =~= cs@.subrange(0, i as int));
        assert(pre.last() == cs@[i as int]);
        if cs[i] == '\n' {
            let end = if i > start && cs[i - 1] == '\r' { i - 1 } else { i };
            let ghost pending = cs@.subrange(start as int, i as int);
            assert(strip_cr_char(pending) =~= cs@.subrange(start as int, end as int));
            check_line(content, start, end, count + 1, &pc, &mut out);
            proof {
                let old_lines = lines;
                lines = lines.push(strip_cr_char(pending));
                assert(lines.drop_last() =~= old_lines);
                assert(lines.last() == cs@.subrange(start as int, end as int));
                assert(cs@.subrange(start as int, end as int) =~= content@.subrange(start as int, end as int));
            }
            count = count + 1;
            start = i + 1;
            assert(cs@.subrange(start as int, i + 1) =~= Seq::<char>::empty());
        } else {
            assert(cs@.subrange(start as int, i + 1) =~= cs@.subrange(start as int, i as int).push(cs@[i as int]));
        }
        i = i + 1;
    }
    assert(cs@.subrange(0, n as int) =~= cs@);
    if start < n {
        check_line(content, start, n, count + 1, &pc, &mut out);
        let ghost all = lines.push(cs@.subrange(start as int, n as int));
        assert(all.drop_last() =~= lines);
        assert(cs@.subrange(start as int, n as int) =~= content@.subrange(start as int, n as int));
    }
    out
}

} // verus!
