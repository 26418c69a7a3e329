//! The reasoning-acting loop as a state machine: the caller opens each turn's
//! stream, hands over its events, runs the tool that a turn asks for, and
//! hands back the tool's result; this module decides everything else.
use vstd::prelude::*;
use std::path::PathBuf;
use crate::clients::{ChunkType, Message, MessageRole, MessageView, StreamChunk, ToolCall, ToolFunction, mviews};
use crate::json::{JsonValue, parse_json, parsed_json};
use crate::memory::{ContextCompressor, ConversationHistory, bounded_push, compressed_view};
use crate::prompts::{agent_prompt, build_code_agent_prompt};
use crate::tools::{ToolError, ToolManager, definitions_of, tool_error_text};
use crate::text::{lemma_first_index_bound, concat, decimal, decimal_text, find, first_index, find_from, occurs_at, slice, trim, trim_end_char, trimmed, trim_end_of};

verus! {

/// The step budget of a run when none is given.
pub const DEFAULT_MAX_STEPS: usize = 200;

/// The marker that ends a thought and starts a tool request.
pub const TOOL_MARKER: &'static str = "TOOL_CALL:";

/// The marker that introduces the final answer.
pub const FINAL_MARKER: &'static str = "FINAL:";

/// The recorded result of one turn.
#[derive(Debug, PartialEq)]
pub struct Step {
    pub thought: String,
    pub action: String,
    pub action_input: JsonValue,
    pub observation: String,
    pub raw: String,
}

impl Step {
    pub fn new(
        thought: String,
        action: String,
        action_input: JsonValue,
        observation: String,
        raw: String,
    ) -> (r: Step)
        ensures
            r == (Step { thought, action, action_input, observation, raw }),
    {
        Step { thought, action, action_input, observation, raw }
    }
}

#[derive(Debug, Clone, PartialEq)]
pub enum AgentError {
    NoTools,
    LLMError(String),
    ToolError(String),
    MaxStepsExceeded,
    ChannelClosed,
    InvalidResponseFormat(String),
}

pub open spec fn agent_error_text(e: AgentError) -> Seq<char> {
    match e {
        AgentError::NoTools => "No tools provided"@,
        AgentError::LLMError(d) => "LLM error: "@ + d@,
        AgentError::ToolError(d) => "Tool error: "@ + d@,
        AgentError::MaxStepsExceeded => "Max steps exceeded"@,
        AgentError::ChannelClosed => "Channel closed"@,
        AgentError::InvalidResponseFormat(d) => "Invalid response format: "@ + d@,
    }
}

impl AgentError {
    /// The error's text, as the run's caller reports it.
    pub fn message(&self) -> (r: String)
        ensures
            r@ == agent_error_text(*self),
    {
        match self {
            AgentError::NoTools => "No tools provided".to_owned(),
            AgentError::LLMError(d) => concat("LLM error: ", d.as_str()),
            AgentError::ToolError(d) => concat("Tool error: ", d.as_str()),
            AgentError::MaxStepsExceeded => "Max steps exceeded".to_owned(),
            AgentError::ChannelClosed => "Channel closed".to_owned(),
            AgentError::InvalidResponseFormat(d) => concat("Invalid response format: ", d.as_str()),
        }
    }
}

/// The first occurrence found in a text is still the first once more text
/// follows.
proof fn lemma_find_from_extends(s: Seq<char>, t: Seq<char>, p: Seq<char>, k: int)
    requires
        find_from(s, p, k) is Some,
    ensures
        find_from(s + t, p, k) == find_from(s, p, k),
    decreases s.len() + 1 - k,
{
    if !(k < 0 || k + p.len() > s.len()) {
        assert((s + t).subrange(k, k + p.len()) =~= s.subrange(k, k + p.len()));
        if !occurs_at(s, p, k) {
            lemma_find_from_extends(s, t, p, k + 1);
        }
    }
}

/// What a turn's content says: the thought, and the action text where the
/// tool marker occurs.
pub open spec fn thought_of(raw: Seq<char>) -> Seq<char> {
    match first_index(raw, TOOL_MARKER@) {
        Some(i) => raw.subrange(0, i),
        None => raw,
    }
}

pub open spec fn action_of(raw: Seq<char>) -> Option<Seq<char>> {
    match first_index(raw, TOOL_MARKER@) {
        Some(i) => Some(raw.subrange(i + TOOL_MARKER@.len(), raw.len() as int)),
        None => None,
    }
}

/// The state of the turn being streamed.
pub struct Turn {
    raw: String,
    thought: String,
    action: String,
    acting: bool,
    any_event: bool,
    tool_event: bool,
}

impl Turn {
    pub closed spec fn raw(&self) -> Seq<char> {
        self.raw@
    }

    /// Whether any event arrived.
    pub closed spec fn any_event(&self) -> bool {
        self.any_event
    }

    /// Whether a structured tool-call event arrived.
    pub closed spec fn tool_event(&self) -> bool {
        self.tool_event
    }

    pub closed spec fn wf(&self) -> bool {
        &&& self.thought@ == thought_of(self.raw@)
        &&& self.acting == action_of(self.raw@) is Some
        &&& self.acting ==> self.action@ == action_of(self.raw@)->0
    }

    pub fn new() -> (r: Turn)
        ensures
            r.wf(),
            r.raw() == Seq::<char>::empty(),
            !r.any_event(),
            !r.tool_event(),
    {
        let t = Turn {
            raw: String::new(),
            thought: String::new(),
            action: String::new(),
            acting: false,
            any_event: false,
            tool_event: false,
        };
        proof {
            reveal_strlit("TOOL_CALL:");
            assert(TOOL_MARKER@.len() == 10);
            assert(find_from(t.raw@, TOOL_MARKER@, 0) is None);
        }
        t
    }

    /// Reads one content fragment: before the tool marker it extends the
    /// thought, after it the action text.
    pub fn add_content(&mut self, content: &str)
        requires
            old(self).wf(),
        ensures
            final(self).wf(),
            final(self).raw() == old(self).raw() + content@,
            final(self).any_event() == old(self).any_event(),
            final(self).tool_event() == old(self).tool_event(),
    {
        let ghost raw = self.raw@ + content@;
        self.raw = concat(self.raw.as_str(), content);
        if self.acting {
            proof {
                lemma_find_from_extends(old(self).raw@, content@, TOOL_MARKER@, 0);
                let i = first_index(old(self).raw@, TOOL_MARKER@)->0;
                lemma_first_index_bound(old(self).raw@, TOOL_MARKER@);
                assert(raw.subrange(i + TOOL_MARKER@.len(), raw.len() as int) =~= old(self).raw@.subrange(
                    i + TOOL_MARKER@.len(),
                    old(self).raw@.len() as int,
                ) + content@);
                assert(raw.subrange(0, i) =~= old(self).raw@.subrange(0, i));
            }
            self.action = concat(self.action.as_str(), content);
        } else {
            self.thought = concat(self.thought.as_str(), content);
            assert(self.thought@ == raw);
            match find(self.thought.as_str(), TOOL_MARKER) {
                Some(i) => {
                    proof {
                        lemma_first_index_bound(raw, TOOL_MARKER@);
                    }
                    let m = TOOL_MARKER.unicode_len();
                    let n = self.thought.as_str().unicode_len();
                    self.action = slice(self.thought.as_str(), i + m, n);
                    self.thought = slice(self.thought.as_str(), 0, i);
                    self.acting = true;
                },
                None => {},
            }
        }
    }

    /// Notes that an event arrived; `tool` where it was a structured tool call.
    pub fn note_event(&mut self, tool: bool)
        requires
            old(self).wf(),
        ensures
            final(self).wf(),
            final(self).raw() == old(self).raw(),
            final(self).any_event(),
            final(self).tool_event() == (old(self).tool_event() || tool),
    {
        self.any_event = true;
        self.tool_event = self.tool_event || tool;
    }
}

/// An action text without surrounding whitespace and a trailing code fence.
pub open spec fn cleaned_action(a: Seq<char>) -> Seq<char> {
    trimmed(trim_end_of(trimmed(a), '`'))
}

/// The tool name of an action: what precedes its first ':'.
pub open spec fn action_name(a: Seq<char>) -> Seq<char> {
    let c = cleaned_action(a);
    match first_index(c, ":"@) {
        Some(i) => trimmed(c.subrange(0, i)),
        None => c,
    }
}

/// The argument text of an action: what follows its first ':'.
pub open spec fn action_args(a: Seq<char>) -> Seq<char> {
    let c = cleaned_action(a);
    match first_index(c, ":"@) {
        Some(i) => trimmed(c.subrange(i + ":"@.len(), c.len() as int)),
        None => Seq::empty(),
    }
}

pub open spec fn is_empty_object(v: JsonValue) -> bool {
    match v {
        JsonValue::Object(entries) => entries@.len() == 0,
        _ => false,
    }
}

/// `{"input": args}`.
pub open spec fn wraps_input(v: JsonValue, args: Seq<char>) -> bool {
    match v {
        JsonValue::Object(entries) => entries@.len() == 1 && entries@[0].0@ == "input"@ && match entries@[0].1 {
            JsonValue::Str(s) => s@ == args,
            _ => false,
        },
        _ => false,
    }
}

/// The input handed to a tool for an argument text: the JSON object it
/// spells where it starts with '{' (an empty object where it does not parse),
/// else the text wrapped as `{"input": text}`.
pub open spec fn is_action_input(v: JsonValue, args: Seq<char>) -> bool {
    if args.len() > 0 && args[0] == '{' {
        match parsed_json(vstd::utf8::encode_utf8(args)) {
            Some(j) => v == j,
            None => is_empty_object(v),
        }
    } else {
        wraps_input(v, args)
    }
}

/// The final answer in a thought: the trimmed text after the first final
/// marker, up to the next one.
pub open spec fn final_answer(thought: Seq<char>) -> Seq<char> {
    match first_index(thought, FINAL_MARKER@) {
        Some(i) => {
            let rest = thought.subrange(i + FINAL_MARKER@.len(), thought.len() as int);
            match first_index(rest, FINAL_MARKER@) {
                Some(k) => trimmed(rest.subrange(0, k)),
                None => trimmed(rest),
            }
        },
        None => Seq::empty(),
    }
}

/// Splits an action text into its tool name and its argument text.
pub fn split_action(action: &str) -> (r: (String, String))
    ensures
        r.0@ == action_name(action@),
        r.1@ == action_args(action@),
{
    let t = trim(action);
    let u = trim_end_char(t.as_str(), '`');
    let c = trim(u.as_str());
    match find(c.as_str(), ":") {
        Some(i) => {
            proof {
                lemma_first_index_bound(c@, ":"@);
            }
            let n = c.as_str().unicode_len();
            let m = ":".unicode_len();
            let name = trim(slice(c.as_str(), 0, i).as_str());
            let args = trim(slice(c.as_str(), i + m, n).as_str());
            (name, args)
        },
        None => (c, String::new()),
    }
}

/// The input for a tool, from its argument text (see `is_action_input`).
pub fn action_input_of(args: &str) -> (r: JsonValue)
    ensures
        is_action_input(r, args@),
{
    if !args.is_empty() && args.get_char(0) == '{' {
        match parse_json(args.as_bytes()) {
            Some(v) => v,
            None => JsonValue::Object(Vec::new()),
        }
    } else {
        let mut entries: Vec<(String, JsonValue)> = Vec::new();
        entries.push(("input".to_owned(), JsonValue::Str(args.to_owned())));
        JsonValue::Object(entries)
    }
}

/// The final answer in a thought (see `final_answer`).
pub fn final_answer_of(thought: &str) -> (r: String)
    ensures
        r@ == final_answer(thought@),
{
    match find(thought, FINAL_MARKER) {
        Some(i) => {
            proof {
                lemma_first_index_bound(thought@, FINAL_MARKER@);
            }
            let n = thought.unicode_len();
            let m = FINAL_MARKER.unicode_len();
            let rest = slice(thought, i + m, n);
            match find(rest.as_str(), FINAL_MARKER) {
                Some(k) => {
                    proof {
                        lemma_first_index_bound(rest@, FINAL_MARKER@);
                    }
                    trim(slice(rest.as_str(), 0, k).as_str())
                },
                None => trim(rest.as_str()),
            }
        },
        None => String::new(),
    }
}

/// The budget of estimated tokens above which a turn's transcript is
/// compressed.
pub const CONTEXT_TOKENS: usize = 12000;

/// How many messages the conversation store of a run keeps.
pub const HISTORY_MESSAGES: usize = 50;

/// What the caller does after a turn.
#[derive(Debug, Clone, PartialEq)]
pub enum TurnOutcome {
    /// Run the tool of this name on the pending input, then hand back its result.
    Dispatch(String),
    /// Open the next turn.
    Continue,
    /// The run is complete; its steps are ready.
    Complete,
}

/// A tool request that waits for its result.
pub struct PendingCall {
    pub thought: String,
    pub name: String,
    pub args: String,
    pub input: JsonValue,
    pub raw: String,
}

/// The assistant message that records a tool request.
pub open spec fn request_message(name: Seq<char>, args: Seq<char>, call: ToolCall) -> MessageView {
    (MessageRole::Assistant, TOOL_MARKER@ + name + ":"@ + args, Some(seq![call]))
}

/// Whether `m` is the assistant message that records the request of tool
/// `name` with argument text `args` in turn `turn`.
pub open spec fn records_request(m: MessageView, name: Seq<char>, args: Seq<char>, turn: nat) -> bool {
    &&& m.0 == MessageRole::Assistant
    &&& m.1 == TOOL_MARKER@ + name + ":"@ + args
    &&& m.2 is Some
    &&& m.2->0.len() == 1
    &&& m.2->0[0].id@ == "call_"@ + decimal(turn)
    &&& m.2->0[0].function.name@ == name
    &&& m.2->0[0].function.arguments@ == args
}

/// Whether `s` records a turn that only thought.
pub open spec fn is_thought_step(s: Step, thought: Seq<char>, raw: Seq<char>) -> bool {
    &&& s.thought@ == thought
    &&& s.action@ == Seq::<char>::empty()
    &&& is_empty_object(s.action_input)
    &&& s.observation@ == Seq::<char>::empty()
    &&& s.raw@ == raw
}

/// The reasoning-acting agent: its tools, its budget, its conversation store,
/// and the state of the run in progress.
pub struct ReactAgent<T> {
    tools: ToolManager<T>,
    working_dir: PathBuf,
    max_steps: usize,
    enable_compression: bool,
    compressor: ContextCompressor,
    history: ConversationHistory,
    steps: Vec<Step>,
    turns: usize,
    turn: Turn,
    pending: Option<PendingCall>,
}

impl<T> ReactAgent<T> {
    pub closed spec fn tool_set(&self) -> ToolManager<T> {
        self.tools
    }

    pub closed spec fn dir(&self) -> PathBuf {
        self.working_dir
    }

    pub closed spec fn step_budget(&self) -> usize {
        self.max_steps
    }

    pub closed spec fn compression_enabled(&self) -> bool {
        self.enable_compression
    }

    pub closed spec fn compressor(&self) -> ContextCompressor {
        self.compressor
    }

    pub closed spec fn history(&self) -> ConversationHistory {
        self.history
    }

    /// The steps of the run so far.
    pub closed spec fn steps(&self) -> Seq<Step> {
        self.steps@
    }

    /// The turns of the run so far.
    pub closed spec fn turns(&self) -> usize {
        self.turns
    }

    /// The turn being streamed.
    pub closed spec fn turn(&self) -> Turn {
        self.turn
    }

    /// The tool request that waits for its result.
    pub closed spec fn pending(&self) -> Option<PendingCall> {
        self.pending
    }

    pub closed spec fn wf(&self) -> bool {
        &&& self.tools.wf()
        &&& self.history.wf()
        &&& self.history.capacity() > 0
        &&& self.turn.wf()
    }

    /// An agent over the given tools. The step budget defaults to 200 and
    /// compression is on unless asked otherwise.
    pub fn new(
        tools: ToolManager<T>,
        working_dir: PathBuf,
        max_steps: Option<usize>,
        enable_compression: Option<bool>,
    ) -> (r: ReactAgent<T>)
        requires
            tools.wf(),
        ensures
            r.wf(),
            r.tool_set() == tools,
            r.dir() == working_dir,
            r.step_budget() == match max_steps {
                Some(n) => n,
                None => DEFAULT_MAX_STEPS,
            },
            r.compression_enabled() == match enable_compression {
                Some(b) => b,
                None => true,
            },
            r.compressor().budget() == CONTEXT_TOKENS,
            r.history().capacity() == HISTORY_MESSAGES,
            r.history().messages() == Seq::<MessageView>::empty(),
            r.steps() == Seq::<Step>::empty(),
            r.turns() == 0,
            r.pending() is None,
    {
        ReactAgent {
            tools,
            working_dir,
            max_steps: match max_steps {
                Some(n) => n,
                None => DEFAULT_MAX_STEPS,
            },
            enable_compression: match enable_compression {
                Some(b) => b,
                None => true,
            },
            compressor: ContextCompressor::with_tokens(CONTEXT_TOKENS),
            history: ConversationHistory::new(HISTORY_MESSAGES),
            steps: Vec::new(),
            turns: 0,
            turn: Turn::new(),
            pending: None,
        }
    }

    pub fn max_steps(&self) -> (r: usize)
        ensures
            r == self.step_budget(),
    {
        self.max_steps
    }

    pub fn working_dir(&self) -> (r: &PathBuf)
        ensures
            *r == self.dir(),
    {
        &self.working_dir
    }

    pub fn tools(&self) -> (r: &ToolManager<T>)
        ensures
            *r == self.tool_set(),
    {
        &self.tools
    }

    /// Starts a run: records the system prompt, built from the tools'
    /// definitions, and the task as a user message; the step log starts empty.
    pub fn begin(&mut self, task: &str)
        requires
            old(self).wf(),
        ensures
            final(self).wf(),
            final(self).tool_set() == old(self).tool_set(),
            final(self).step_budget() == old(self).step_budget(),
            final(self).compression_enabled() == old(self).compression_enabled(),
            final(self).compressor() == old(self).compressor(),
            final(self).history().capacity() == old(self).history().capacity(),
            final(self).history().results() == old(self).history().results(),
            final(self).history().messages() == bounded_push(
                bounded_push(
                    old(self).history().messages(),
                    (MessageRole::System, agent_prompt(definitions_of(old(self).tool_set().infos()), None), None),
                    old(self).history().capacity(),
                ),
                (MessageRole::User, task@, None),
                old(self).history().capacity(),
            ),
            final(self).steps() == Seq::<Step>::empty(),
            final(self).turns() == 0,
            final(self).pending() is None,
    {
        let definitions = self.tools.get_definitions();
        let prompt = build_code_agent_prompt(definitions.as_slice(), None);
        self.history.add_message(Message { role: MessageRole::System, content: prompt, tool_calls: None });
        self.history.add_message(Message { role: MessageRole::User, content: task.to_owned(), tool_calls: None });
        self.steps = Vec::new();
        self.turns = 0;
        self.turn = Turn::new();
        self.pending = None;
    }

    /// Opens a turn and returns the transcript to send: the stored messages,
    /// compressed where compression is on.
    pub fn request(&mut self) -> (r: Vec<Message>)
        requires
            old(self).wf(),
        ensures
            final(self).wf(),
            final(self).tool_set() == old(self).tool_set(),
            final(self).step_budget() == old(self).step_budget(),
            final(self).compression_enabled() == old(self).compression_enabled(),
            final(self).compressor() == old(self).compressor(),
            final(self).history() == old(self).history(),
            final(self).steps() == old(self).steps(),
            final(self).turns() == if old(self).turns() < usize::MAX { old(self).turns() + 1 } else { usize::MAX as int },
            final(self).turn().raw() == Seq::<char>::empty(),
            !final(self).turn().any_event(),
            !final(self).turn().tool_event(),
            final(self).pending() is None,
            mviews(r@) == if old(self).compression_enabled() {
                compressed_view(
                    old(self).history().messages(),
                    old(self).history().results(),
                    old(self).compressor().budget(),
                    old(self).compressor().keep(),
                )
            } else {
                old(self).history().messages()
            },
    {
        self.turns = self.turns.saturating_add(1);
        self.turn = Turn::new();
        self.pending = None;
        let messages = self.history.get_messages();
        if self.enable_compression {
            let results = self.history.get_tool_results();
            let (compressed, _, _) = self.compressor.compress(messages.as_slice(), results.as_slice());
            compressed
        } else {
            messages
        }
    }

    /// Ends the turn whose events were read. A turn that requested a tool
    /// records the request and, where the tool is registered, hands it to the
    /// caller; a turn that only thought records a step, completes the run when
    /// it gave a final answer, and otherwise goes on within the step budget.
    pub fn end_turn(&mut self) -> (r: Result<TurnOutcome, AgentError>)
        requires
            old(self).wf(),
            old(self).pending() is None,
        ensures
            final(self).wf(),
            final(self).tool_set() == old(self).tool_set(),
            final(self).step_budget() == old(self).step_budget(),
            final(self).compression_enabled() == old(self).compression_enabled(),
            final(self).compressor() == old(self).compressor(),
            final(self).history().capacity() == old(self).history().capacity(),
            final(self).history().results() == old(self).history().results(),
            final(self).turns() == old(self).turns(),
            ({
                let raw = old(self).turn().raw();
                let thought = thought_of(raw);
                let h = old(self).history().messages();
                let cap = old(self).history().capacity();
                if !old(self).turn().any_event() {
                    &&& r matches Err(AgentError::LLMError(m)) && m@ == "No content received"@
                    &&& final(self).history().messages() == h
                    &&& final(self).steps() == old(self).steps()
                    &&& final(self).pending() is None
                } else if action_of(raw) is Some {
                    let a = action_of(raw)->0;
                    let name = action_name(a);
                    let args = action_args(a);
                    let m = final(self).history().messages().last();
                    &&& records_request(m, name, args, old(self).turns() as nat)
                    &&& final(self).history().messages() == bounded_push(h, m, cap)
                    &&& final(self).steps() == old(self).steps()
                    &&& if old(self).tool_set().registered(name) {
                        &&& r matches Ok(TurnOutcome::Dispatch(t)) && t@ == name
                        &&& final(self).pending() matches Some(p) && p.thought@ == thought && p.name@ == name
                            && p.args@ == args && is_action_input(p.input, args) && p.raw@ == raw
                    } else {
                        &&& r matches Err(AgentError::ToolError(e)) && e@ == "Unknown tool: "@ + name
                        &&& final(self).pending() is None
                    }
                } else {
                    let answer = final_answer(thought);
                    &&& final(self).pending() is None
                    &&& if thought.len() > 0 {
                        &&& final(self).steps().len() == old(self).steps().len() + 1
                        &&& final(self).steps().drop_last() == old(self).steps()
                        &&& is_thought_step(final(self).steps().last(), thought, raw)
                    } else {
                        final(self).steps() == old(self).steps()
                    }
                    &&& if !old(self).turn().tool_event() && answer.len() > 0 {
                        &&& r == Ok::<TurnOutcome, AgentError>(TurnOutcome::Complete)
                        &&& final(self).history().messages() == bounded_push(
                            h,
                            (MessageRole::User, "Task completed. Final response: "@ + answer, None),
                            cap,
                        )
                    } else {
                        &&& final(self).history().messages() == h
                        &&& r == if old(self).turns() >= old(self).step_budget() {
                            Err::<TurnOutcome, AgentError>(AgentError::MaxStepsExceeded)
                        } else {
                            Ok::<TurnOutcome, AgentError>(TurnOutcome::Continue)
                        }
                    }
                }
            }),
    {
        if !self.turn.any_event {
            return Err(AgentError::LLMError("No content received".to_owned()));
        }
        if self.turn.acting {
            let (name, args) = split_action(self.turn.action.as_str());
            let input = action_input_of(args.as_str());
            let id = concat("call_", decimal_text(self.turns).as_str());
            let content = concat(concat(concat(TOOL_MARKER, name.as_str()).as_str(), ":").as_str(), args.as_str());
            let mut calls: Vec<ToolCall> = Vec::new();
            calls.push(ToolCall { id, function: ToolFunction { name: name.clone(), arguments: args.clone() } });
            let message = Message { role: MessageRole::Assistant, content, tool_calls: Some(calls) };
            let ghost mv = message@;
            self.history.add_message(message);
            assert(self.history.messages().last() == mv);
            if self.tools.get(name.as_str()).is_none() {
                return Err(AgentError::ToolError(concat("Unknown tool: ", name.as_str())));
            }
            self.pending = Some(
                PendingCall {
                    thought: self.turn.thought.clone(),
                    name: name.clone(),
                    args,
                    input,
                    raw: self.turn.raw.clone(),
                },
            );
            return Ok(TurnOutcome::Dispatch(name));
        }
        let thought = self.turn.thought.clone();
        if !thought.as_str().is_empty() {
            self.steps.push(
                Step {
                    thought: thought.clone(),
                    action: String::new(),
                    action_input: JsonValue::Object(Vec::new()),
                    observation: String::new(),
                    raw: self.turn.raw.clone(),
                },
            );
        }
        let answer = final_answer_of(thought.as_str());
        if !self.turn.tool_event && !answer.as_str().is_empty() {
            let content = concat("Task completed. Final response: ", answer.as_str());
            self.history.add_message(Message { role: MessageRole::User, content, tool_calls: None });
            return Ok(TurnOutcome::Complete);
        }
        if self.turns >= self.max_steps {
            Err(AgentError::MaxStepsExceeded)
        } else {
            Ok(TurnOutcome::Continue)
        }
    }

    /// Takes the result of the pending tool request: a success becomes the
    /// turn's observation, recorded as a tool message and as a step; a failure
    /// ends the run.
    pub fn tool_finished(&mut self, result: Result<String, ToolError>) -> (r: Result<TurnOutcome, AgentError>)
        requires
            old(self).wf(),
            old(self).pending() is Some,
        ensures
            final(self).wf(),
            final(self).tool_set() == old(self).tool_set(),
            final(self).step_budget() == old(self).step_budget(),
            final(self).compression_enabled() == old(self).compression_enabled(),
            final(self).compressor() == old(self).compressor(),
            final(self).history().capacity() == old(self).history().capacity(),
            final(self).history().results() == old(self).history().results(),
            final(self).turns() == old(self).turns(),
            final(self).pending() is None,
            ({
                let p = old(self).pending()->0;
                match result {
                    Err(e) => {
                        &&& r matches Err(AgentError::ToolError(m)) && m@ == tool_error_text(e)
                        &&& final(self).history().messages() == old(self).history().messages()
                        &&& final(self).steps() == old(self).steps()
                    },
                    Ok(obs) => {
                        &&& final(self).history().messages() == bounded_push(
                            old(self).history().messages(),
                            (MessageRole::Tool, obs@, None),
                            old(self).history().capacity(),
                        )
                        &&& final(self).steps() == old(self).steps().push(
                            Step {
                                thought: p.thought,
                                action: p.name,
                                action_input: p.input,
                                observation: obs,
                                raw: p.raw,
                            },
                        )
                        &&& r == if old(self).turns() >= old(self).step_budget() {
                            Err::<TurnOutcome, AgentError>(AgentError::MaxStepsExceeded)
                        } else {
                            Ok::<TurnOutcome, AgentError>(TurnOutcome::Continue)
                        }
                    },
                }
            }),
    {
        let mut taken: Option<PendingCall> = None;
        std::mem::swap(&mut taken, &mut self.pending);
        let call = match taken {
            Some(c) => c,
            None => {
                return Err(AgentError::ChannelClosed);
            },
        };
        match result {
            Err(e) => Err(AgentError::ToolError(e.message())),
            Ok(observation) => {
                self.history.add_message(
                    Message { role: MessageRole::Tool, content: observation.clone(), tool_calls: None },
                );
                self.steps.push(
                    Step {
                        thought: call.thought,
                        action: call.name,
                        action_input: call.input,
                        observation,
                        raw: call.raw,
                    },
                );
                if self.turns >= self.max_steps {
                    Err(AgentError::MaxStepsExceeded)
                } else {
                    Ok(TurnOutcome::Continue)
                }
            },
        }
    }

    /// The input of the pending tool request.
    pub fn pending_input(&self) -> (r: Option<&JsonValue>)
        ensures
            match r {
                Some(v) => self.pending() matches Some(p) && p.input == *v,
                None => self.pending() is None,
            },
    {
        match &self.pending {
            Some(p) => Some(&p.input),
            None => None,
        }
    }

    /// How many steps the run has recorded.
    pub fn step_count(&self) -> (r: usize)
        ensures
            r == self.steps().len(),
    {
        self.steps.len()
    }

    /// The step recorded last.
    pub fn last_step(&self) -> (r: Option<&Step>)
        ensures
            match r {
                Some(s) => self.steps().len() > 0 && *s == self.steps().last(),
                None => self.steps().len() == 0,
            },
    {
        if self.steps.len() == 0 {
            None
        } else {
            Some(&self.steps[self.steps.len() - 1])
        }
    }

    /// Hands over the steps of the run, leaving the log empty.
    pub fn take_steps(&mut self) -> (r: Vec<Step>)
        requires
            old(self).wf(),
        ensures
            final(self).wf(),
            r@ == old(self).steps(),
            final(self).steps() == Seq::<Step>::empty(),
            final(self).tool_set() == old(self).tool_set(),
            final(self).history() == old(self).history(),
            final(self).turns() == old(self).turns(),
            final(self).pending() == old(self).pending(),
    {
        let mut out: Vec<Step> = Vec::new();
        std::mem::swap(&mut out, &mut self.steps);
        out
    }

    /// Reads one event of the turn's stream. `Ok(true)` when it was the
    /// terminal event; an error event ends the run.
    pub fn on_event(&mut self, chunk: &StreamChunk) -> (r: Result<bool, AgentError>)
        requires
            old(self).wf(),
        ensures
            final(self).wf(),
            final(self).tool_set() == old(self).tool_set(),
            final(self).step_budget() == old(self).step_budget(),
            final(self).compression_enabled() == old(self).compression_enabled(),
            final(self).compressor() == old(self).compressor(),
            final(self).history() == old(self).history(),
            final(self).steps() == old(self).steps(),
            final(self).turns() == old(self).turns(),
            final(self).pending() == old(self).pending(),
            final(self).turn().any_event(),
            final(self).turn().raw() == if chunk.chunk_type == ChunkType::Content {
                old(self).turn().raw() + chunk.content@
            } else {
                old(self).turn().raw()
            },
            final(self).turn().tool_event() == (old(self).turn().tool_event() || chunk.chunk_type
                == ChunkType::ToolCall || chunk.chunk_type == ChunkType::ToolArgs),
            match chunk.chunk_type {
                ChunkType::Done => r == Ok::<bool, AgentError>(true),
                ChunkType::Error => r matches Err(AgentError::LLMError(m)) && m@ == chunk.content@,
                _ => r == Ok::<bool, AgentError>(false),
            },
    {
        match chunk.chunk_type {
            ChunkType::Content => {
                self.turn.note_event(false);
                self.turn.add_content(chunk.content.as_str());
                Ok(false)
            },
            ChunkType::ToolCall => {
                self.turn.note_event(true);
                Ok(false)
            },
            ChunkType::ToolArgs => {
                self.turn.note_event(true);
                Ok(false)
            },
            ChunkType::Done => {
                self.turn.note_event(false);
                Ok(true)
            },
            ChunkType::Error => {
                self.turn.note_event(false);
                Err(AgentError::LLMError(chunk.content.clone()))
            },
        }
    }
}

} // verus!
