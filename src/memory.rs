//! The conversation store, bounded by a message count, and the compressor
//! that shrinks a transcript to a token budget.
use vstd::prelude::*;
use std::collections::VecDeque;
use crate::clients::{Message, MessageRole, MessageView, mviews, lemma_mviews_push};
use crate::text::{concat, decimal, decimal_text};

verus! {

/// The budget used when a compressor is asked for a budget of zero.
pub const DEFAULT_MAX_TOKENS: usize = 8000;

/// The compression ratio, in thousandths, used when the one asked for is not
/// strictly between 0 and 1.
pub const DEFAULT_COMPRESSION_PERMILLE: u32 = 700;

/// The estimate charged for each tool call a message carries.
pub const TOKENS_PER_TOOL_CALL: usize = 20;

/// The record of one tool invocation. `arguments` and `result` hold the JSON
/// text of the call's arguments and of what it returned.
#[derive(Debug, Clone, PartialEq)]
pub struct ToolResult {
    pub tool_name: String,
    pub arguments: String,
    pub result: String,
    pub timestamp: u64,
}

impl ToolResult {
    /// A copy with the same fields.
    pub fn duplicate(&self) -> (r: ToolResult)
        ensures
            r == *self,
    {
        ToolResult {
            tool_name: self.tool_name.clone(),
            arguments: self.arguments.clone(),
            result: self.result.clone(),
            timestamp: self.timestamp,
        }
    }
}

#[derive(Debug, Clone, Copy, PartialEq, Eq, Structural)]
pub struct ContextMetadata {
    pub total_tokens: usize,
    pub compressed: bool,
    pub compression_count: usize,
}

impl Default for ContextMetadata {
    fn default() -> (r: ContextMetadata)
        ensures
            r == (ContextMetadata { total_tokens: 0, compressed: false, compression_count: 0 }),
    {
        ContextMetadata { total_tokens: 0, compressed: false, compression_count: 0 }
    }
}

/// A transcript after compression.
#[derive(Debug, Clone, PartialEq)]
pub struct ConversationContext {
    pub messages: Vec<Message>,
    pub tool_results: Vec<ToolResult>,
    pub metadata: ContextMetadata,
}

/// The number of bytes of the UTF-8 encoding of `s`, as `str::len` reports it.
pub open spec fn byte_len(s: Seq<char>) -> nat {
    vstd::utf8::encode_utf8(s).len() as usize as nat
}

pub open spec fn call_count(m: MessageView) -> nat {
    match m.2 {
        Some(calls) => calls.len(),
        None => 0,
    }
}

/// The estimate of one message: a token per four bytes of text, and a fixed
/// charge per tool call.
pub open spec fn message_tokens(m: MessageView) -> nat {
    byte_len(m.1) / 4 + call_count(m) * 20
}

pub open spec fn messages_tokens(ms: Seq<MessageView>) -> nat
    decreases ms.len(),
{
    if ms.len() == 0 {
        0
    } else {
        messages_tokens(ms.drop_last()) + message_tokens(ms.last())
    }
}

/// The estimate of one tool result: a token per four bytes of each text.
pub open spec fn result_tokens(r: ToolResult) -> nat {
    byte_len(r.tool_name@) / 4 + byte_len(r.arguments@) / 4 + byte_len(r.result@) / 4
}

pub open spec fn results_tokens(rs: Seq<ToolResult>) -> nat
    decreases rs.len(),
{
    if rs.len() == 0 {
        0
    } else {
        results_tokens(rs.drop_last()) + result_tokens(rs.last())
    }
}

/// The estimate of a transcript: its messages and its tool results.
pub open spec fn token_estimate(ms: Seq<MessageView>, rs: Seq<ToolResult>) -> nat {
    messages_tokens(ms) + results_tokens(rs)
}

/// `n`, or the largest `usize` where `n` is larger.
pub open spec fn saturated(n: nat) -> usize {
    if n > usize::MAX {
        usize::MAX
    } else {
        n as usize
    }
}

fn text_tokens(s: &String) -> (r: usize)
    ensures
        r == byte_len(s@) / 4,
{
    s.as_str().len() / 4
}

fn message_tokens_of(m: &Message) -> (r: usize)
    ensures
        r == saturated(message_tokens(m@)),
{
    let calls: usize = match &m.tool_calls {
        Some(c) => c.len(),
        None => 0,
    };
    let charge: usize = if calls > usize::MAX / TOKENS_PER_TOOL_CALL {
        usize::MAX
    } else {
        calls * TOKENS_PER_TOOL_CALL
    };
    text_tokens(&m.content).saturating_add(charge)
}

/// The estimate of a transcript, saturated at the largest `usize`.
pub fn count_tokens(messages: &[Message], tool_results: &[ToolResult]) -> (r: usize)
    ensures
        r == saturated(token_estimate(mviews(messages@), tool_results@)),
{
    let mut m_total: usize = 0;
    let mut i: usize = 0;
    while i < messages.len()
        invariant
            0 <= i <= messages.len(),
            m_total == saturated(messages_tokens(mviews(messages@.subrange(0, i as int)))),
        decreases messages.len() - i,
    {
        let t = message_tokens_of(&messages[i]);
        proof {
            let prev = messages@.subrange(0, i as int);
            assert(messages@.subrange(0, i + 1) =~= prev.push(messages@[i as int]));
            lemma_mviews_push(prev, messages@[i as int]);
            assert(mviews(prev.push(messages@[i as int])).drop_last() =~= mviews(prev));
        }
        m_total = m_total.saturating_add(t);
        i = i + 1;
    }
    assert(messages@.subrange(0, messages@.len() as int) =~= messages@);
    let mut r_total: usize = 0;
    let mut k: usize = 0;
    while k < tool_results.len()
        invariant
            0 <= k <= tool_results.len(),
            r_total == saturated(results_tokens(tool_results@.subrange(0, k as int))),
        decreases tool_results.len() - k,
    {
        let tr = &tool_results[k];
        let t = text_tokens(&tr.tool_name).saturating_add(text_tokens(&tr.arguments)).saturating_add(
            text_tokens(&tr.result),
        );
        assert(tool_results@.subrange(0, k + 1).drop_last() =~= tool_results@.subrange(0, k as int));
        r_total = r_total.saturating_add(t);
        k = k + 1;
    }
    assert(tool_results@.subrange(0, tool_results@.len() as int) =~= tool_results@);
    m_total.saturating_add(r_total)
}

/// The system messages of a transcript, in order.
pub open spec fn system_part(ms: Seq<MessageView>) -> Seq<MessageView>
    decreases ms.len(),
{
    if ms.len() == 0 {
        Seq::empty()
    } else if ms.last().0 == MessageRole::System {
        system_part(ms.drop_last()).push(ms.last())
    } else {
        system_part(ms.drop_last())
    }
}

/// The other messages of a transcript, in order.
pub open spec fn other_part(ms: Seq<MessageView>) -> Seq<MessageView>
    decreases ms.len(),
{
    if ms.len() == 0 {
        Seq::empty()
    } else if ms.last().0 != MessageRole::System {
        other_part(ms.drop_last()).push(ms.last())
    } else {
        other_part(ms.drop_last())
    }
}

pub open spec fn kept_count(ms: Seq<MessageView>, keep: nat) -> nat {
    if keep < other_part(ms).len() {
        keep
    } else {
        other_part(ms).len()
    }
}

/// The most recent `keep` non-system messages, or all of them where fewer.
pub open spec fn recent_part(ms: Seq<MessageView>, keep: nat) -> Seq<MessageView> {
    let o = other_part(ms);
    o.subrange(o.len() - kept_count(ms, keep), o.len() as int)
}

/// The non-system messages that compression replaces by a summary.
pub open spec fn earlier_part(ms: Seq<MessageView>, keep: nat) -> Seq<MessageView> {
    let o = other_part(ms);
    o.subrange(0, o.len() - kept_count(ms, keep))
}

pub open spec fn count_role(ms: Seq<MessageView>, role: MessageRole) -> nat
    decreases ms.len(),
{
    if ms.len() == 0 {
        0
    } else {
        count_role(ms.drop_last(), role) + if ms.last().0 == role {
            1nat
        } else {
            0nat
        }
    }
}

pub open spec fn count_calls(ms: Seq<MessageView>) -> nat
    decreases ms.len(),
{
    if ms.len() == 0 {
        0
    } else {
        count_calls(ms.drop_last()) + call_count(ms.last())
    }
}

/// The statistics that stand for summarized messages.
pub open spec fn summary_text(ms: Seq<MessageView>) -> Seq<char> {
    if ms.len() == 0 {
        "No previous conversation"@
    } else {
        decimal(count_role(ms, MessageRole::User)) + " user messages, "@ + decimal(
            count_role(ms, MessageRole::Assistant),
        ) + " assistant responses, "@ + decimal(saturated(count_calls(ms)) as nat) + " tool calls"@
    }
}

/// The synthetic user message that stands for summarized messages.
pub open spec fn summary_message(ms: Seq<MessageView>) -> MessageView {
    (MessageRole::User, "[Previous conversation summarized: "@ + summary_text(ms) + "]"@, None)
}

/// A compressed transcript: the system messages, one summary of the earlier
/// messages, and the most recent `keep` other messages.
pub open spec fn compressed_messages(ms: Seq<MessageView>, keep: nat) -> Seq<MessageView> {
    system_part(ms) + seq![summary_message(earlier_part(ms, keep))] + recent_part(ms, keep)
}

/// Whether a tool call of one of the messages names `name`.
pub open spec fn references(ms: Seq<MessageView>, name: Seq<char>) -> bool {
    exists|i: int, j: int|
        0 <= i < ms.len() && ms[i].2 is Some && 0 <= j < ms[i].2->0.len()
            && (#[trigger] ms[i].2->0[j]).function.name@ == name
}

/// The tool results whose tool one of the messages calls, in order.
pub open spec fn kept_results(rs: Seq<ToolResult>, ms: Seq<MessageView>) -> Seq<ToolResult>
    decreases rs.len(),
{
    if rs.len() == 0 {
        Seq::empty()
    } else if references(ms, rs.last().tool_name@) {
        kept_results(rs.drop_last(), ms).push(rs.last())
    } else {
        kept_results(rs.drop_last(), ms)
    }
}

/// The statistics that stand for `messages`.
pub fn summarize_messages(messages: &Vec<Message>) -> (r: String)
    ensures
        r@ == summary_text(mviews(messages@)),
{
    let ghost ms = mviews(messages@);
    if messages.len() == 0 {
        return "No previous conversation".to_owned();
    }
    let mut users: usize = 0;
    let mut assistants: usize = 0;
    let mut calls: usize = 0;
    let mut i: usize = 0;
    while i < messages.len()
        invariant
            0 <= i <= messages.len(),
            ms == mviews(messages@),
            users == count_role(ms.subrange(0, i as int), MessageRole::User),
            assistants == count_role(ms.subrange(0, i as int), MessageRole::Assistant),
            calls == saturated(count_calls(ms.subrange(0, i as int))),
            users <= i,
            assistants <= i,
        decreases messages.len() - i,
    {
        let m = &messages[i];
        assert(ms.subrange(0, i + 1).drop_last() =~= ms.subrange(0, i as int));
        assert(ms[i as int] == m@);
        if m.role == MessageRole::User {
            users = users + 1;
        }
        if m.role == MessageRole::Assistant {
            assistants = assistants + 1;
        }
        match &m.tool_calls {
            Some(c) => {
                calls = calls.saturating_add(c.len());
            },
            None => {},
        }
        i = i + 1;
    }
    assert(ms.subrange(0, ms.len() as int) =~= ms);
    let mut r = decimal_text(users);
    r = concat(r.as_str(), " user messages, ");
    r = concat(r.as_str(), decimal_text(assistants).as_str());
    r = concat(r.as_str(), " assistant responses, ");
    r = concat(r.as_str(), decimal_text(calls).as_str());
    concat(r.as_str(), " tool calls")
}

/// Whether a tool call of one of `messages` names `name`.
fn mentions_tool(messages: &Vec<Message>, name: &String) -> (r: bool)
    ensures
        r == references(mviews(messages@), name@),
{
    let ghost ms = mviews(messages@);
    let mut i: usize = 0;
    while i < messages.len()
        invariant
            0 <= i <= messages.len(),
            ms == mviews(messages@),
            forall|a: int, b: int|
                0 <= a < i && ms[a].2 is Some && 0 <= b < ms[a].2->0.len() ==> (#[trigger] ms[a].2->0[b]).function.name@ != name@,
        decreases messages.len() - i,
    {
        assert(ms[i as int] == messages@[i as int]@);
        match &messages[i].tool_calls {
            Some(calls) => {
                let mut j: usize = 0;
                while j < calls.len()
                    invariant
                        0 <= j <= calls.len(),
                        0 <= i < messages.len(),
                        ms == mviews(messages@),
                        ms[i as int].2 == Some(calls@),
                        forall|b: int| 0 <= b < j ==> (#[trigger] calls@[b]).function.name@ != name@,
                    decreases calls.len() - j,
                {
                    if calls[j].function.name == *name {
                        assert(ms[i as int].2->0[j as int] == calls@[j as int]);
                        return true;
                    }
                    j = j + 1;
                }
            },
            None => {},
        }
        i = i + 1;
    }
    false
}

/// The messages that `compress` hands back for a transcript.
pub open spec fn compressed_view(ms: Seq<MessageView>, rs: Seq<ToolResult>, budget: usize, keep: usize) -> Seq<
    MessageView,
> {
    if saturated(token_estimate(ms, rs)) <= budget {
        ms
    } else {
        compressed_messages(ms, keep as nat)
    }
}

/// Shrinks a transcript that is over a token budget.
pub struct ContextCompressor {
    max_tokens: usize,
    compression_permille: u32,
    preserve_recent: usize,
}

impl ContextCompressor {
    /// The token budget above which a transcript is compressed.
    pub closed spec fn budget(&self) -> usize {
        self.max_tokens
    }

    /// How many recent non-system messages compression keeps verbatim.
    pub closed spec fn keep(&self) -> usize {
        self.preserve_recent
    }

    /// The target ratio, in thousandths, that the compressor was made with.
    pub closed spec fn ratio(&self) -> u32 {
        self.compression_permille
    }

    /// A compressor with the given budget (a budget of zero takes the default),
    /// ratio in thousandths (one not strictly between 0 and 1000 takes the
    /// default) and count of recent messages to keep.
    pub fn new(max_tokens: usize, compression_permille: u32, preserve_recent: usize) -> (r: ContextCompressor)
        ensures
            r.budget() == if max_tokens == 0 { DEFAULT_MAX_TOKENS } else { max_tokens },
            r.ratio() == if 0 < compression_permille < 1000 {
                compression_permille
            } else {
                DEFAULT_COMPRESSION_PERMILLE
            },
            r.keep() == preserve_recent,
    {
        ContextCompressor {
            max_tokens: if max_tokens == 0 { DEFAULT_MAX_TOKENS } else { max_tokens },
            compression_permille: if 0 < compression_permille && compression_permille < 1000 {
                compression_permille
            } else {
                DEFAULT_COMPRESSION_PERMILLE
            },
            preserve_recent,
        }
    }

    /// A compressor with the given budget, the default ratio, and three recent
    /// messages kept.
    pub fn with_tokens(max_tokens: usize) -> (r: ContextCompressor)
        ensures
            r.budget() == if max_tokens == 0 { DEFAULT_MAX_TOKENS } else { max_tokens },
            r.ratio() == DEFAULT_COMPRESSION_PERMILLE,
            r.keep() == 3,
    {
        ContextCompressor::new(max_tokens, DEFAULT_COMPRESSION_PERMILLE, 3)
    }

    pub fn max_tokens(&self) -> (r: usize)
        ensures
            r == self.budget(),
    {
        self.max_tokens
    }

    /// Compresses a transcript whose estimate is over the budget: the system
    /// messages stay, in order; the earlier other messages become one summary;
    /// the most recent ones stay verbatim; only the tool results whose tool a
    /// retained message calls stay. A transcript within the budget comes back
    /// unchanged.
    pub fn compress(&self, messages: &[Message], tool_results: &[ToolResult]) -> (r: (
        Vec<Message>,
        Vec<ToolResult>,
        ContextMetadata,
    ))
        ensures
            ({
                let ms = mviews(messages@);
                let est = token_estimate(ms, tool_results@);
                if saturated(est) <= self.budget() {
                    &&& mviews(r.0@) == ms
                    &&& r.1@ == tool_results@
                    &&& r.2 == (ContextMetadata { total_tokens: saturated(est), compressed: false, compression_count: 0 })
                } else {
                    let out = compressed_messages(ms, self.keep() as nat);
                    &&& mviews(r.0@) == out
                    &&& r.1@ == kept_results(tool_results@, out)
                    &&& r.2 == (ContextMetadata {
                        total_tokens: saturated(token_estimate(out, r.1@)),
                        compressed: true,
                        compression_count: 1,
                    })
                }
            }),
            mviews(r.0@) == compressed_view(mviews(messages@), tool_results@, self.budget(), self.keep()),
    {
        let ghost ms = mviews(messages@);
        let current = count_tokens(messages, tool_results);
        if current <= self.max_tokens {
            let mut same: Vec<Message> = Vec::new();
            let mut i: usize = 0;
            while i < messages.len()
                invariant
                    0 <= i <= messages.len(),
                    mviews(same@) == mviews(messages@.subrange(0, i as int)),
                decreases messages.len() - i,
            {
                let m = messages[i].duplicate();
                proof {
                    lemma_mviews_push(same@, m);
                    lemma_mviews_push(messages@.subrange(0, i as int), messages@[i as int]);
                    assert(messages@.subrange(0, i + 1) =~= messages@.subrange(0, i as int).push(messages@[i as int]));
                }
                same.push(m);
                i = i + 1;
            }
            assert(messages@.subrange(0, messages@.len() as int) =~= messages@);
            let mut results: Vec<ToolResult> = Vec::new();
            let mut k: usize = 0;
            while k < tool_results.len()
                invariant
                    0 <= k <= tool_results.len(),
                    results@ == tool_results@.subrange(0, k as int),
                decreases tool_results.len() - k,
            {
                results.push(tool_results[k].duplicate());
                assert(results@ =~= tool_results@.subrange(0, k + 1));
                k = k + 1;
            }
            assert(results@ =~= tool_results@);
            return (same, results, ContextMetadata { total_tokens: current, compressed: false, compression_count: 0 });
        }
        let mut system: Vec<Message> = Vec::new();
        let mut others: Vec<Message> = Vec::new();
        let mut i: usize = 0;
        while i < messages.len()
            invariant
                0 <= i <= messages.len(),
                ms == mviews(messages@),
                mviews(system@) == system_part(ms.subrange(0, i as int)),
                mviews(others@) == other_part(ms.subrange(0, i as int)),
            decreases messages.len() - i,
        {
            let m = messages[i].duplicate();
            assert(ms.subrange(0, i + 1).drop_last() =~= ms.subrange(0, i as int));
            assert(ms.subrange(0, i + 1).last() == m@);
            if m.role == MessageRole::System {
                proof {
                    lemma_mviews_push(system@, m);
                }
                system.push(m);
            } else {
                proof {
                    lemma_mviews_push(others@, m);
                }
                others.push(m);
            }
            i = i + 1;
        }
        assert(ms.subrange(0, ms.len() as int) =~= ms);
        let ghost o = other_part(ms);
        let kept: usize = if self.preserve_recent < others.len() {
            self.preserve_recent
        } else {
            others.len()
        };
        let split = others.len() - kept;
        let mut earlier: Vec<Message> = Vec::new();
        let mut j: usize = 0;
        while j < split
            invariant
                0 <= j <= split,
                split <= others.len(),
                mviews(others@) == o,
                mviews(earlier@) == o.subrange(0, j as int),
            decreases split - j,
        {
            let m = others[j].duplicate();
            proof {
                lemma_mviews_push(earlier@, m);
                assert(o.subrange(0, j + 1) =~= o.subrange(0, j as int).push(o[j as int]));
            }
            earlier.push(m);
            j = j + 1;
        }
        let summary = summarize_messages(&earlier);
        let head = concat("[Previous conversation summarized: ", summary.as_str());
        let content = concat(head.as_str(), "]");
        let mut out = system;
        let note = Message { role: MessageRole::User, content, tool_calls: None };
        proof {
            lemma_mviews_push(out@, note);
        }
        out.push(note);
        let ghost base = mviews(out@);
        let mut k: usize = split;
        assert(o.subrange(split as int, split as int) =~= Seq::<MessageView>::empty());
        assert(base + o.subrange(split as int, k as int) =~= base);
        while k < others.len()
            invariant
                split <= k <= others.len(),
                mviews(others@) == o,
                mviews(out@) == base + o.subrange(split as int, k as int),
            decreases others.len() - k,
        {
            let m = others[k].duplicate();
            proof {
                lemma_mviews_push(out@, m);
                assert(o.subrange(split as int, k + 1) =~= o.subrange(split as int, k as int).push(o[k as int]));
                assert(base + o.subrange(split as int, k + 1) =~= (base + o.subrange(split as int, k as int)).push(o[k as int]));
            }
            out.push(m);
            k = k + 1;
        }
        let ghost final_ms = compressed_messages(ms, self.preserve_recent as nat);
        assert(mviews(out@) =~= final_ms);
        let mut results: Vec<ToolResult> = Vec::new();
        let mut t: usize = 0;
        while t < tool_results.len()
            invariant
                0 <= t <= tool_results.len(),
                mviews(out@) == final_ms,
                results@ == kept_results(tool_results@.subrange(0, t as int), final_ms),
            decreases tool_results.len() - t,
        {
            assert(tool_results@.subrange(0, t + 1).drop_last() =~= tool_results@.subrange(0, t as int));
            if mentions_tool(&out, &tool_results[t].tool_name) {
                results.push(tool_results[t].duplicate());
            }
            t = t + 1;
        }
        assert(tool_results@.subrange(0, tool_results@.len() as int) =~= tool_results@);
        let total = count_tokens(out.as_slice(), results.as_slice());
        (out, results, ContextMetadata { total_tokens: total, compressed: true, compression_count: 1 })
    }
}

proof fn lemma_other_part_not_system(ms: Seq<MessageView>)
    ensures
        forall|i: int| 0 <= i < other_part(ms).len() ==> (#[trigger] other_part(ms)[i]).0 != MessageRole::System,
    decreases ms.len(),
{
    if ms.len() > 0 {
        lemma_other_part_not_system(ms.drop_last());
    }
}

/// An over-budget compression keeps every system message first and in order,
/// then exactly one synthetic summary, then at most `keep` of the other
/// messages verbatim: the most recent ones, in order.
pub proof fn law_compression_shape(ms: Seq<MessageView>, keep: nat)
    ensures
        ({
            let out = compressed_messages(ms, keep);
            let s = system_part(ms).len();
            let o = other_part(ms);
            let tail = out.subrange(s + 1int, out.len() as int);
            &&& out.subrange(0, s as int) == system_part(ms)
            &&& out[s as int] == summary_message(earlier_part(ms, keep))
            &&& tail.len() <= keep
            &&& tail == o.subrange(o.len() - tail.len(), o.len() as int)
            &&& forall|i: int| 0 <= i < tail.len() ==> (#[trigger] tail[i]).0 != MessageRole::System
        }),
{
    let out = compressed_messages(ms, keep);
    let s = system_part(ms).len();
    assert(out.subrange(0, s as int) =~= system_part(ms));
    assert(out.subrange(s + 1int, out.len() as int) =~= recent_part(ms, keep));
    lemma_other_part_not_system(ms);
}

/// The messages of a store of capacity `cap` after `m` is appended to `ms`:
/// the most recent `cap` of them.
pub open spec fn bounded_push(ms: Seq<MessageView>, m: MessageView, cap: usize) -> Seq<MessageView> {
    let all = ms.push(m);
    let n = if all.len() <= cap { all.len() } else { cap as nat };
    all.subrange(all.len() - n, all.len() as int)
}

/// The transcript store: messages in the order they came, at most a fixed
/// number of them, the oldest dropped first; and the tool results.
pub struct ConversationHistory {
    messages: VecDeque<Message>,
    tool_results: VecDeque<ToolResult>,
    max_messages: usize,
}

impl ConversationHistory {
    /// The messages held, oldest first.
    pub closed spec fn messages(&self) -> Seq<MessageView> {
        mviews(self.messages@)
    }

    pub closed spec fn results(&self) -> Seq<ToolResult> {
        self.tool_results@
    }

    pub closed spec fn capacity(&self) -> usize {
        self.max_messages
    }

    pub closed spec fn wf(&self) -> bool {
        self.messages@.len() <= self.max_messages
    }

    pub fn new(max_messages: usize) -> (r: ConversationHistory)
        ensures
            r.wf(),
            r.messages() == Seq::<MessageView>::empty(),
            r.results() == Seq::<ToolResult>::empty(),
            r.capacity() == max_messages,
    {
        let h = ConversationHistory {
            messages: VecDeque::new(),
            tool_results: VecDeque::new(),
            max_messages,
        };
        assert(h.messages() =~= Seq::<MessageView>::empty());
        h
    }

    /// Appends a message, first dropping the oldest ones so that the store
    /// never holds more than its capacity.
    pub fn add_message(&mut self, message: Message)
        requires
            old(self).wf(),
        ensures
            final(self).wf(),
            final(self).capacity() == old(self).capacity(),
            final(self).results() == old(self).results(),
            final(self).messages() == bounded_push(old(self).messages(), message@, old(self).capacity()),
    {
        let ghost all = mviews(self.messages@).push(message@);
        if self.max_messages == 0 {
            assert(all.subrange(all.len() as int, all.len() as int) =~= mviews(self.messages@));
            return;
        }
        while self.messages.len() >= self.max_messages
            invariant
                self.max_messages == old(self).max_messages,
                self.max_messages > 0,
                self.tool_results == old(self).tool_results,
                self.messages@.len() <= old(self).messages@.len(),
                old(self).messages@.len() <= self.max_messages,
                self.messages@.len() == old(self).messages@.len() || self.messages@.len() >= self.max_messages - 1,
                mviews(self.messages@) == mviews(old(self).messages@).subrange(
                    old(self).messages@.len() - self.messages@.len(),
                    old(self).messages@.len() as int,
                ),
            decreases self.messages@.len(),
        {
            let ghost before = self.messages@;
            self.messages.pop_front();
            assert(mviews(self.messages@) =~= mviews(before).drop_first());
            assert(mviews(self.messages@) =~= mviews(old(self).messages@).subrange(
                old(self).messages@.len() - self.messages@.len(),
                old(self).messages@.len() as int,
            ));
        }
        let ghost kept = self.messages@;
        self.messages.push_back(message);
        proof {
            lemma_mviews_push(kept, message);
        }
        assert(mviews(self.messages@) =~= all.subrange(all.len() - self.messages@.len(), all.len() as int));
    }

    pub fn add_tool_result(&mut self, result: ToolResult)
        ensures
            final(self).results() == old(self).results().push(result),
            final(self).messages() == old(self).messages(),
            final(self).capacity() == old(self).capacity(),
            old(self).wf() ==> final(self).wf(),
    {
        self.tool_results.push_back(result);
    }

    /// Copies of the messages held, oldest first.
    pub fn get_messages(&self) -> (r: Vec<Message>)
        ensures
            mviews(r@) == self.messages(),
    {
        let mut r: Vec<Message> = Vec::new();
        let mut i: usize = 0;
        while i < self.messages.len()
            invariant
                0 <= i <= self.messages@.len(),
                mviews(r@) == mviews(self.messages@.subrange(0, i as int)),
            decreases self.messages@.len() - i,
        {
            let m = self.messages[i].duplicate();
            proof {
                lemma_mviews_push(r@, m);
                lemma_mviews_push(self.messages@.subrange(0, i as int), self.messages@[i as int]);
                assert(self.messages@.subrange(0, i + 1) =~= self.messages@.subrange(0, i as int).push(self.messages@[i as int]));
            }
            r.push(m);
            i = i + 1;
        }
        assert(self.messages@.subrange(0, self.messages@.len() as int) =~= self.messages@);
        r
    }

    /// Copies of the tool results held, oldest first.
    pub fn get_tool_results(&self) -> (r: Vec<ToolResult>)
        ensures
            r@ == self.results(),
    {
        let mut r: Vec<ToolResult> = Vec::new();
        let mut i: usize = 0;
        while i < self.tool_results.len()
            invariant
                0 <= i <= self.tool_results@.len(),
                r@ == self.tool_results@.subrange(0, i as int),
            decreases self.tool_results@.len() - i,
        {
            r.push(self.tool_results[i].duplicate());
            assert(r@ =~= self.tool_results@.subrange(0, i + 1));
            i = i + 1;
        }
        assert(r@ =~= self.tool_results@);
        r
    }

    pub fn clear(&mut self)
        ensures
            final(self).wf(),
            final(self).messages() == Seq::<MessageView>::empty(),
            final(self).results() == Seq::<ToolResult>::empty(),
            final(self).capacity() == old(self).capacity(),
    {
        self.messages.clear();
        self.tool_results.clear();
        assert(mviews(self.messages@) =~= Seq::<MessageView>::empty());
    }
}

} // verus!
