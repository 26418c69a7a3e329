//! Messages exchanged with a model endpoint, the events of its streamed
//! answer, and the body of a completion request.
use vstd::prelude::*;
use crate::json::{JsonValue, parse_json, parsed_json};

verus! {

#[derive(Debug, Clone, Copy, PartialEq, Eq, Structural)]
pub enum MessageRole {
    System,
    User,
    Assistant,
    Tool,
}

#[derive(Debug, Clone, PartialEq)]
pub struct ToolFunction {
    pub name: String,
    pub arguments: String,
}

#[derive(Debug, Clone, PartialEq)]
pub struct ToolCall {
    pub id: String,
    pub function: ToolFunction,
}

#[derive(Debug, Clone, PartialEq)]
pub struct Message {
    pub role: MessageRole,
    pub content: String,
    pub tool_calls: Option<Vec<ToolCall>>,
}

/// What the prompt tells the model about one tool; `parameters` is the JSON
/// text of its parameter schema.
#[derive(Debug, Clone, PartialEq)]
pub struct ToolDefinition {
    pub name: String,
    pub description: String,
    pub parameters: String,
}

#[derive(Debug, Clone, Copy, PartialEq, Eq, Structural)]
pub enum ChunkType {
    Content,
    ToolCall,
    ToolArgs,
    Done,
    Error,
}

/// One event of a model's streamed answer.
#[derive(Debug, Clone, PartialEq)]
pub struct StreamChunk {
    pub content: String,
    pub chunk_type: ChunkType,
    pub delta: bool,
}

#[derive(Debug, Clone, PartialEq)]
pub struct ModelInfo {
    pub name: String,
    pub max_tokens: Option<u32>,
    pub supports_streaming: bool,
}

#[derive(Debug, Clone, PartialEq)]
pub enum LLMError {
    RequestFailed(String),
    ApiError(String),
    ParseError(String),
    ConfigError(String),
}

impl ToolFunction {
    /// A copy with the same fields.
    pub fn duplicate(&self) -> (r: ToolFunction)
        ensures
            r == *self,
    {
        ToolFunction { name: self.name.clone(), arguments: self.arguments.clone() }
    }
}

impl ToolCall {
    /// A copy with the same fields.
    pub fn duplicate(&self) -> (r: ToolCall)
        ensures
            r == *self,
    {
        ToolCall { id: self.id.clone(), function: self.function.duplicate() }
    }
}

/// A copy of a list of tool calls, element by element.
pub fn duplicate_calls(calls: &Vec<ToolCall>) -> (r: Vec<ToolCall>)
    ensures
        r@ == calls@,
{
    let mut r: Vec<ToolCall> = Vec::new();
    let mut i: usize = 0;
    while i < calls.len()
        invariant
            0 <= i <= calls.len(),
            r@ == calls@.subrange(0, i as int),
        decreases calls.len() - i,
    {
        r.push(calls[i].duplicate());
        assert(r@ =~= calls@.subrange(0, i + 1));
        i = i + 1;
    }
    assert(r@ =~= calls@);
    r
}

/// A message as its role, its text and its tool calls.
pub type MessageView = (MessageRole, Seq<char>, Option<Seq<ToolCall>>);

impl View for Message {
    type V = MessageView;

    open spec fn view(&self) -> Self::V {
        (self.role, self.content@, match self.tool_calls {
            Some(calls) => Some(calls@),
            None => None,
        })
    }
}

/// The views of a list of messages.
pub open spec fn mviews(ms: Seq<Message>) -> Seq<MessageView> {
    ms.map_values(|m: Message| m@)
}

pub proof fn lemma_mviews_push(ms: Seq<Message>, m: Message)
    ensures
        mviews(ms.push(m)) == mviews(ms).push(m@),
{
    assert(mviews(ms.push(m)) =~= mviews(ms).push(m@));
}

impl Message {
    /// A copy with the same fields.
    pub fn duplicate(&self) -> (r: Message)
        ensures
            r@ == self@,
    {
        let tool_calls = match &self.tool_calls {
            Some(calls) => Some(duplicate_calls(calls)),
            None => None,
        };
        proof {
            if self.tool_calls is Some {
                assert(tool_calls->0@ =~= self.tool_calls->0@);
            }
        }
        Message { role: self.role, content: self.content.clone(), tool_calls }
    }
}

impl LLMError {
    /// The error's text, as the endpoint's caller reports it.
    pub fn message(&self) -> (r: String)
        ensures
            r@ == llm_error_text(*self),
    {
        let (head, detail) = match self {
            LLMError::RequestFailed(d) => ("Request failed: ", d),
            LLMError::ApiError(d) => ("API error: ", d),
            LLMError::ParseError(d) => ("Parse error: ", d),
            LLMError::ConfigError(d) => ("Configuration error: ", d),
        };
        crate::text::concat(head, detail.as_str())
    }
}

pub open spec fn llm_error_text(e: LLMError) -> Seq<char> {
    match e {
        LLMError::RequestFailed(d) => "Request failed: "@ + d@,
        LLMError::ApiError(d) => "API error: "@ + d@,
        LLMError::ParseError(d) => "Parse error: "@ + d@,
        LLMError::ConfigError(d) => "Configuration error: "@ + d@,
    }
}


/// The name of a role on the wire.
pub open spec fn role_name(r: MessageRole) -> Seq<char> {
    match r {
        MessageRole::System => "system"@,
        MessageRole::User => "user"@,
        MessageRole::Assistant => "assistant"@,
        MessageRole::Tool => "tool"@,
    }
}

pub fn role_text(r: MessageRole) -> (s: String)
    ensures
        s@ == role_name(r),
{
    match r {
        MessageRole::System => "system".to_owned(),
        MessageRole::User => "user".to_owned(),
        MessageRole::Assistant => "assistant".to_owned(),
        MessageRole::Tool => "tool".to_owned(),
    }
}

pub open spec fn is_str(v: JsonValue, s: Seq<char>) -> bool {
    match v {
        JsonValue::Str(x) => x@ == s,
        _ => false,
    }
}

/// `v` is an object whose members are `keys`, in order, and `check` holds of
/// each member's value.
pub open spec fn object_keys(v: JsonValue, keys: Seq<Seq<char>>) -> bool {
    match v {
        JsonValue::Object(e) => e@.len() == keys.len() && forall|i: int| 0 <= i < keys.len() ==> (#[trigger] e@[i]).0@ == keys[i],
        _ => false,
    }
}

/// The value of member `i` of an object.
pub open spec fn member_at(v: JsonValue, i: int) -> JsonValue {
    match v {
        JsonValue::Object(e) => e@[i].1,
        _ => JsonValue::Null,
    }
}

pub open spec fn array_items(v: JsonValue) -> Seq<JsonValue> {
    match v {
        JsonValue::Array(a) => a@,
        _ => Seq::empty(),
    }
}

/// `{"id", "type": "function", "function": {"name", "arguments"}}` for a call.
pub open spec fn is_call_json(v: JsonValue, c: ToolCall) -> bool {
    &&& object_keys(v, seq!["id"@, "type"@, "function"@])
    &&& is_str(member_at(v, 0), c.id@)
    &&& is_str(member_at(v, 1), "function"@)
    &&& object_keys(member_at(v, 2), seq!["name"@, "arguments"@])
    &&& is_str(member_at(member_at(v, 2), 0), c.function.name@)
    &&& is_str(member_at(member_at(v, 2), 1), c.function.arguments@)
}

/// `{"role", "content"}`, with `"tool_calls"` where the message has calls.
pub open spec fn is_message_json(v: JsonValue, m: MessageView) -> bool {
    &&& is_str(member_at(v, 0), role_name(m.0))
    &&& is_str(member_at(v, 1), m.1)
    &&& match m.2 {
        None => object_keys(v, seq!["role"@, "content"@]),
        Some(calls) => {
            &&& object_keys(v, seq!["role"@, "content"@, "tool_calls"@])
            &&& member_at(v, 2) is Array
            &&& array_items(member_at(v, 2)).len() == calls.len()
            &&& forall|i: int| 0 <= i < calls.len() ==> is_call_json(#[trigger] array_items(member_at(v, 2))[i], calls[i])
        },
    }
}

/// The schema of a tool on the wire: its text parsed, or null where it does
/// not parse.
pub open spec fn schema_json(text: Seq<char>) -> JsonValue {
    match parsed_json(vstd::utf8::encode_utf8(text)) {
        Some(v) => v,
        None => JsonValue::Null,
    }
}

/// `{"type": "function", "function": {"name", "description", "parameters"}}`.
pub open spec fn is_tool_json(v: JsonValue, t: ToolDefinition) -> bool {
    &&& object_keys(v, seq!["type"@, "function"@])
    &&& is_str(member_at(v, 0), "function"@)
    &&& object_keys(member_at(v, 1), seq!["name"@, "description"@, "parameters"@])
    &&& is_str(member_at(member_at(v, 1), 0), t.name@)
    &&& is_str(member_at(member_at(v, 1), 1), t.description@)
    &&& member_at(member_at(v, 1), 2) == schema_json(t.parameters@)
}

/// The body of a streamed completion request.
pub open spec fn is_request_json(v: JsonValue, model: Seq<char>, ms: Seq<MessageView>, ts: Seq<ToolDefinition>) -> bool {
    &&& is_str(member_at(v, 0), model)
    &&& member_at(v, 1) is Array
    &&& array_items(member_at(v, 1)).len() == ms.len()
    &&& forall|i: int| 0 <= i < ms.len() ==> is_message_json(#[trigger] array_items(member_at(v, 1))[i], ms[i])
    &&& member_at(v, 2) == JsonValue::Bool(true)
    &&& if ts.len() == 0 {
        object_keys(v, seq!["model"@, "messages"@, "stream"@])
    } else {
        &&& object_keys(v, seq!["model"@, "messages"@, "stream"@, "tools"@])
        &&& member_at(v, 3) is Array
        &&& array_items(member_at(v, 3)).len() == ts.len()
        &&& forall|i: int| 0 <= i < ts.len() ==> is_tool_json(#[trigger] array_items(member_at(v, 3))[i], ts[i])
    }
}

fn call_json(c: &ToolCall) -> (r: JsonValue)
    ensures
        is_call_json(r, *c),
{
    let mut f: Vec<(String, JsonValue)> = Vec::new();
    f.push(("name".to_owned(), JsonValue::Str(c.function.name.clone())));
    f.push(("arguments".to_owned(), JsonValue::Str(c.function.arguments.clone())));
    let mut e: Vec<(String, JsonValue)> = Vec::new();
    e.push(("id".to_owned(), JsonValue::Str(c.id.clone())));
    e.push(("type".to_owned(), JsonValue::Str("function".to_owned())));
    e.push(("function".to_owned(), JsonValue::Object(f)));
    let r = JsonValue::Object(e);
    assert(object_keys(member_at(r, 2), seq!["name"@, "arguments"@]));
    assert(object_keys(r, seq!["id"@, "type"@, "function"@]));
    r
}

fn message_json(m: &Message) -> (r: JsonValue)
    ensures
        is_message_json(r, m@),
{
    let mut e: Vec<(String, JsonValue)> = Vec::new();
    e.push(("role".to_owned(), JsonValue::Str(role_text(m.role))));
    e.push(("content".to_owned(), JsonValue::Str(m.content.clone())));
    match &m.tool_calls {
        Some(calls) => {
            let mut items: Vec<JsonValue> = Vec::new();
            let mut i: usize = 0;
            while i < calls.len()
                invariant
                    0 <= i <= calls.len(),
                    items@.len() == i,
                    forall|k: int| 0 <= k < i ==> is_call_json(#[trigger] items@[k], calls@[k]),
                decreases calls.len() - i,
            {
                items.push(call_json(&calls[i]));
                i = i + 1;
            }
            e.push(("tool_calls".to_owned(), JsonValue::Array(items)));
            let r = JsonValue::Object(e);
            assert(object_keys(r, seq!["role"@, "content"@, "tool_calls"@]));
            r
        },
        None => {
            let r = JsonValue::Object(e);
            assert(object_keys(r, seq!["role"@, "content"@]));
            r
        },
    }
}

fn tool_json(t: &ToolDefinition) -> (r: JsonValue)
    ensures
        is_tool_json(r, *t),
{
    let schema = match parse_json(t.parameters.as_str().as_bytes()) {
        Some(v) => v,
        None => JsonValue::Null,
    };
    let mut f: Vec<(String, JsonValue)> = Vec::new();
    f.push(("name".to_owned(), JsonValue::Str(t.name.clone())));
    f.push(("description".to_owned(), JsonValue::Str(t.description.clone())));
    f.push(("parameters".to_owned(), schema));
    let mut e: Vec<(String, JsonValue)> = Vec::new();
    e.push(("type".to_owned(), JsonValue::Str("function".to_owned())));
    e.push(("function".to_owned(), JsonValue::Object(f)));
    let r = JsonValue::Object(e);
    assert(object_keys(member_at(r, 1), seq!["name"@, "description"@, "parameters"@]));
    assert(object_keys(r, seq!["type"@, "function"@]));
    r
}

/// The body of a streamed completion request for `model` over the messages,
/// offering the tools where there are any.
pub fn build_request(model: &str, messages: &[Message], tools: &[ToolDefinition]) -> (r: JsonValue)
    ensures
        is_request_json(r, model@, mviews(messages@), tools@),
{
    let mut items: Vec<JsonValue> = Vec::new();
    let mut i: usize = 0;
    while i < messages.len()
        invariant
            0 <= i <= messages.len(),
            items@.len() == i,
            forall|k: int| 0 <= k < i ==> is_message_json(#[trigger] items@[k], mviews(messages@)[k]),
        decreases messages.len() - i,
    {
        items.push(message_json(&messages[i]));
        i = i + 1;
    }
    let mut e: Vec<(String, JsonValue)> = Vec::new();
    e.push(("model".to_owned(), JsonValue::Str(model.to_owned())));
    e.push(("messages".to_owned(), JsonValue::Array(items)));
    e.push(("stream".to_owned(), JsonValue::Bool(true)));
    if tools.len() > 0 {
        let mut defs: Vec<JsonValue> = Vec::new();
        let mut k: usize = 0;
        while k < tools.len()
            invariant
                0 <= k <= tools.len(),
                defs@.len() == k,
                forall|j: int| 0 <= j < k ==> is_tool_json(#[trigger] defs@[j], tools@[j]),
            decreases tools.len() - k,
        {
            defs.push(tool_json(&tools[k]));
            k = k + 1;
        }
        e.push(("tools".to_owned(), JsonValue::Array(defs)));
        let r = JsonValue::Object(e);
        assert(object_keys(r, seq!["model"@, "messages"@, "stream"@, "tools"@]));
        r
    } else {
        let r = JsonValue::Object(e);
        assert(object_keys(r, seq!["model"@, "messages"@, "stream"@]));
        r
    }
}

/// The providers that have a client: "openai", in either spelling.
pub fn check_provider(provider: &str) -> (r: Result<(), LLMError>)
    ensures
        (provider@ == "openai"@ || provider@ == "OpenAI"@) ==> r is Ok,
        !(provider@ == "openai"@ || provider@ == "OpenAI"@) ==> (r matches Err(LLMError::ConfigError(m))
            && m@ == "Unknown provider: "@ + provider@),
{
    let p = provider.to_owned();
    if p == "openai".to_owned() || p == "OpenAI".to_owned() {
        Ok(())
    } else {
        Err(LLMError::ConfigError(crate::text::concat("Unknown provider: ", provider)))
    }
}

/// What the client for `model` reports about it.
pub fn model_info_for(model: String) -> (r: ModelInfo)
    ensures
        r.name == model,
        r.max_tokens == Some(16384u32),
        r.supports_streaming,
{
    ModelInfo { name: model, max_tokens: Some(16384), supports_streaming: true }
}

} // verus!
