//! Decoding a model endpoint's answer, framed either as event-stream lines
//! ("data: " followed by a JSON delta, or the sentinel "[DONE]") or as one JSON
//! document, into an ordered sequence of stream events.
use vstd::prelude::*;
use crate::clients::{ChunkType, StreamChunk};
use crate::json::{JsonValue, field, get_member, parse_json, parsed_json};

verus! {

/// An event as its text, its kind and whether it is an incremental fragment.
pub type Event = (Seq<char>, ChunkType, bool);

impl View for StreamChunk {
    type V = Event;

    open spec fn view(&self) -> Event {
        (self.content@, self.chunk_type, self.delta)
    }
}

pub open spec fn views(chunks: Seq<StreamChunk>) -> Seq<Event> {
    chunks.map_values(|c: StreamChunk| c@)
}

pub open spec fn done_event() -> Event {
    (Seq::empty(), ChunkType::Done, false)
}

pub open spec fn is_terminal(e: Event) -> bool {
    e.1 == ChunkType::Done || e.1 == ChunkType::Error
}

/// The bytes of "data: ".
pub open spec fn data_prefix() -> Seq<u8> {
    seq![100u8, 97u8, 116u8, 97u8, 58u8, 32u8]
}

/// The bytes of "[DONE]".
pub open spec fn done_payload() -> Seq<u8> {
    seq![91u8, 68u8, 79u8, 78u8, 69u8, 93u8]
}

/// A line without its carriage return.
pub open spec fn strip_cr(line: Seq<u8>) -> Seq<u8> {
    if line.len() > 0 && line.last() == 13u8 {
        line.drop_last()
    } else {
        line
    }
}

/// What follows "data: " on an event-stream line.
pub open spec fn payload_of(line: Seq<u8>) -> Option<Seq<u8>> {
    let l = strip_cr(line);
    if l.len() >= 6 && l.subrange(0, 6) == data_prefix() {
        Some(l.subrange(6, l.len() as int))
    } else {
        None
    }
}

/// The string under `key` in an object, or nothing.
pub open spec fn text_field(v: JsonValue, key: Seq<char>) -> Seq<char> {
    match field(v, key) {
        Some(JsonValue::Str(s)) => s@,
        _ => Seq::empty(),
    }
}

/// The items of an array, or none.
pub open spec fn items(v: Option<JsonValue>) -> Seq<JsonValue> {
    match v {
        Some(JsonValue::Array(a)) => a@,
        _ => Seq::empty(),
    }
}

/// One event for a non-empty text.
pub open spec fn event_if(text: Seq<char>, kind: ChunkType, delta: bool) -> Seq<Event> {
    if text.len() > 0 {
        seq![(text, kind, delta)]
    } else {
        Seq::empty()
    }
}

/// The events of one streamed tool call: its name, then its argument fragment.
pub open spec fn call_events(call: JsonValue) -> Seq<Event> {
    match field(call, "function"@) {
        Some(f) => event_if(text_field(f, "name"@), ChunkType::ToolCall, true) + event_if(
            text_field(f, "arguments"@),
            ChunkType::ToolArgs,
            true,
        ),
        None => Seq::empty(),
    }
}

pub open spec fn calls_events(calls: Seq<JsonValue>) -> Seq<Event>
    decreases calls.len(),
{
    if calls.len() == 0 {
        Seq::empty()
    } else {
        calls_events(calls.drop_last()) + call_events(calls.last())
    }
}

/// The events of one choice: its content fragment, then its tool calls.
pub open spec fn choice_events(choice: JsonValue) -> Seq<Event> {
    match field(choice, "delta"@) {
        Some(d) => event_if(text_field(d, "content"@), ChunkType::Content, true) + calls_events(
            items(field(d, "tool_calls"@)),
        ),
        None => Seq::empty(),
    }
}

pub open spec fn choices_events(choices: Seq<JsonValue>) -> Seq<Event>
    decreases choices.len(),
{
    if choices.len() == 0 {
        Seq::empty()
    } else {
        choices_events(choices.drop_last()) + choice_events(choices.last())
    }
}

/// The events of one JSON delta document.
pub open spec fn delta_events(j: JsonValue) -> Seq<Event> {
    choices_events(items(field(j, "choices"@)))
}

/// What one line yields: its events, whether it was a JSON delta, and whether
/// it was the sentinel.
pub open spec fn line_effect(line: Seq<u8>) -> (Seq<Event>, bool, bool) {
    match payload_of(line) {
        None => (Seq::empty(), false, false),
        Some(p) => if p == done_payload() {
            (seq![done_event()], false, true)
        } else {
            match parsed_json(p) {
                None => (Seq::empty(), false, false),
                Some(j) => (delta_events(j), true, false),
            }
        },
    }
}

/// The state after a sequence of lines: the events so far, whether a JSON
/// delta was seen, and whether the sentinel ended the stream. Lines after the
/// sentinel are not read.
pub open spec fn scan(lines: Seq<Seq<u8>>) -> (Seq<Event>, bool, bool)
    decreases lines.len(),
{
    if lines.len() == 0 {
        (Seq::empty(), false, false)
    } else {
        let prev = scan(lines.drop_last());
        if prev.2 {
            prev
        } else {
            let e = line_effect(lines.last());
            (prev.0 + e.0, prev.1 || e.1, e.2)
        }
    }
}

/// The complete lines that `chunk` ends, and what is left pending, when `pending`
/// was left over before it.
pub open spec fn split_lines(pending: Seq<u8>, chunk: Seq<u8>) -> (Seq<Seq<u8>>, Seq<u8>)
    decreases chunk.len(),
{
    if chunk.len() == 0 {
        (Seq::empty(), pending)
    } else {
        let prev = split_lines(pending, chunk.drop_last());
        if chunk.last() == 10u8 {
            (prev.0.push(prev.1), Seq::empty())
        } else {
            (prev.0, prev.1.push(chunk.last()))
        }
    }
}

/// The lines of a stream that has ended: an unterminated last line counts.
pub open spec fn closing_lines(lines: Seq<Seq<u8>>, pending: Seq<u8>) -> Seq<Seq<u8>> {
    if pending.len() > 0 {
        lines.push(pending)
    } else {
        lines
    }
}

/// The text that `String::from_utf8_lossy` makes of the bytes.
pub uninterp spec fn lossy_text(bytes: Seq<u8>) -> Seq<char>;

/// Relies on String::from_utf8_lossy: valid UTF-8 is decoded as it stands.
#[verifier::external_body]
fn utf8_lossy(bytes: &[u8]) -> (r: String)
    ensures
        r@ == lossy_text(bytes@),
        vstd::utf8::valid_utf8(bytes@) ==> r@ == vstd::utf8::decode_utf8(bytes@),
{
    String::from_utf8_lossy(bytes).into_owned()
}

/// The content of the first choice's message in a whole JSON answer.
pub open spec fn message_text(j: JsonValue) -> Seq<char> {
    let choices = items(field(j, "choices"@));
    if choices.len() == 0 {
        Seq::empty()
    } else {
        match field(choices[0], "message"@) {
            Some(m) => text_field(m, "content"@),
            None => Seq::empty(),
        }
    }
}

/// The error text for a body that is neither event-stream nor JSON.
pub open spec fn unparsable_text(body: Seq<u8>) -> Seq<char> {
    "Failed to parse response: "@ + lossy_text(body)
}

/// The events that end a stream in state `st`, whose bytes were `body`.
pub open spec fn closing_events(st: (Seq<Event>, bool, bool), body: Seq<u8>) -> Seq<Event> {
    if st.2 {
        Seq::empty()
    } else if st.1 {
        seq![done_event()]
    } else {
        match parsed_json(body) {
            Some(j) => event_if(message_text(j), ChunkType::Content, false).push(done_event()),
            None => seq![(unparsable_text(body), ChunkType::Error, false)],
        }
    }
}

/// Every event of a stream that has ended, given its complete lines, what was
/// left pending and all its bytes.
pub open spec fn stream_total(lines: Seq<Seq<u8>>, pending: Seq<u8>, body: Seq<u8>) -> Seq<Event> {
    let st = scan(closing_lines(lines, pending));
    st.0 + closing_events(st, body)
}

/// Every event of a whole answer, handed to the decoder at once.
pub open spec fn decode_body(body: Seq<u8>) -> Seq<Event> {
    let split = split_lines(Seq::empty(), body);
    stream_total(split.0, split.1, body)
}

proof fn lemma_views_push(a: Seq<StreamChunk>, x: StreamChunk)
    ensures
        views(a.push(x)) == views(a).push(x@),
{
    assert(views(a.push(x)) =~= views(a).push(x@));
}

proof fn lemma_views_concat(a: Seq<StreamChunk>, b: Seq<StreamChunk>)
    ensures
        views(a + b) == views(a) + views(b),
{
    assert(views(a + b) =~= views(a) + views(b));
}

/// The member `key` of `v`, where `v` is an object.
fn member_of<'a>(v: &'a JsonValue, key: &str) -> (r: Option<&'a JsonValue>)
    ensures
        match r {
            Some(x) => field(*v, key@) == Some(*x),
            None => field(*v, key@) is None,
        },
{
    match v {
        JsonValue::Object(entries) => get_member(entries, key),
        _ => None,
    }
}

/// Appends an event for the non-empty string under `key` in `v`.
fn push_text_event(v: &JsonValue, key: &str, kind: ChunkType, delta: bool, out: &mut Vec<StreamChunk>)
    ensures
        views(final(out)@) == views(old(out)@) + event_if(text_field(*v, key@), kind, delta),
{
    match member_of(v, key) {
        Some(JsonValue::Str(s)) => {
            if !s.as_str().is_empty() {
                let c = StreamChunk { content: s.clone(), chunk_type: kind, delta };
                proof {
                    lemma_views_push(out@, c);
                }
                out.push(c);
            } else {
                assert(views(old(out)@) + event_if(text_field(*v, key@), kind, delta) =~= views(out@));
            }
        },
        _ => {
            assert(views(old(out)@) + event_if(text_field(*v, key@), kind, delta) =~= views(out@));
        },
    }
}

fn push_call_events(call: &JsonValue, out: &mut Vec<StreamChunk>)
    ensures
        views(final(out)@) == views(old(out)@) + call_events(*call),
{
    match member_of(call, "function") {
        Some(f) => {
            push_text_event(f, "name", ChunkType::ToolCall, true, out);
            push_text_event(f, "arguments", ChunkType::ToolArgs, true, out);
            assert(views(out@) =~= views(old(out)@) + call_events(*call));
        },
        None => {
            assert(views(out@) =~= views(old(out)@) + call_events(*call));
        },
    }
}

fn push_choice_events(choice: &JsonValue, out: &mut Vec<StreamChunk>)
    ensures
        views(final(out)@) == views(old(out)@) + choice_events(*choice),
{
    match member_of(choice, "delta") {
        Some(d) => {
            push_text_event(d, "content", ChunkType::Content, true, out);
            let ghost mid = views(out@);
            match member_of(d, "tool_calls") {
                Some(JsonValue::Array(calls)) => {
                    let mut i: usize = 0;
                    assert(calls_events(calls@.subrange(0, 0)) =~= Seq::<Event>::empty());
                    assert(views(out@) =~= mid + calls_events(calls@.subrange(0, 0)));
                    while i < calls.len()
                        invariant
                            0 <= i <= calls.len(),
                            views(out@) == mid + calls_events(calls@.subrange(0, i as int)),
                        decreases calls.len() - i,
                    {
                        push_call_events(&calls[i], out);
                        assert(calls@.subrange(0, i + 1).drop_last() =~= calls@.subrange(0, i as int));
                        assert(views(out@) =~= mid + calls_events(calls@.subrange(0, i + 1)));
                        i = i + 1;
                    }
                    assert(calls@.subrange(0, calls@.len() as int) =~= calls@);
                },
                _ => {},
            }
            assert(views(out@) =~= views(old(out)@) + choice_events(*choice));
        },
        None => {
            assert(views(out@) =~= views(old(out)@) + choice_events(*choice));
        },
    }
}

/// The events of one JSON delta document.
fn delta_events_of(j: &JsonValue) -> (r: Vec<StreamChunk>)
    ensures
        views(r@) == delta_events(*j),
{
    let mut out: Vec<StreamChunk> = Vec::new();
    match member_of(j, "choices") {
        Some(JsonValue::Array(choices)) => {
            let mut i: usize = 0;
            assert(views(out@) =~= choices_events(choices@.subrange(0, 0)));
            while i < choices.len()
                invariant
                    0 <= i <= choices.len(),
                    views(out@) == choices_events(choices@.subrange(0, i as int)),
                decreases choices.len() - i,
            {
                push_choice_events(&choices[i], &mut out);
                assert(choices@.subrange(0, i + 1).drop_last() =~= choices@.subrange(0, i as int));
                i = i + 1;
            }
            assert(choices@.subrange(0, choices@.len() as int) =~= choices@);
        },
        _ => {
            assert(views(out@) =~= delta_events(*j));
        },
    }
    out
}

/// The length of the line without its carriage return.
fn line_end(line: &Vec<u8>) -> (r: usize)
    ensures
        r == strip_cr(line@).len(),
        strip_cr(line@) == line@.subrange(0, r as int),
{
    let n = line.len();
    if n > 0 && line[n - 1] == 13u8 {
        n - 1
    } else {
        assert(line@.subrange(0, n as int) =~= line@);
        n
    }
}

/// What one line yields (see `line_effect`).
fn line_effect_of(line: &Vec<u8>) -> (r: (Vec<StreamChunk>, bool, bool))
    ensures
        (views(r.0@), r.1, r.2) == line_effect(line@),
{
    let end = line_end(line);
    let ghost l = strip_cr(line@);
    let is_data = end >= 6 && line[0] == 100u8 && line[1] == 97u8 && line[2] == 116u8
        && line[3] == 97u8 && line[4] == 58u8 && line[5] == 32u8;
    if !is_data {
        proof {
            if l.len() >= 6 && l.subrange(0, 6) == data_prefix() {
                assert(l.subrange(0, 6)[0] == line@[0]);
                assert(l.subrange(0, 6)[1] == line@[1]);
                assert(l.subrange(0, 6)[2] == line@[2]);
                assert(l.subrange(0, 6)[3] == line@[3]);
                assert(l.subrange(0, 6)[4] == line@[4]);
                assert(l.subrange(0, 6)[5] == line@[5]);
            }
        }
        let none: Vec<StreamChunk> = Vec::new();
        assert(views(none@) =~= Seq::<Event>::empty());
        return (none, false, false);
    }
    assert(l.subrange(0, 6) =~= data_prefix());
    let mut payload: Vec<u8> = Vec::new();
    let mut k: usize = 6;
    while k < end
        invariant
            6 <= k <= end,
            end == l.len(),
            l == line@.subrange(0, end as int),
            end <= line@.len(),
            payload@ == l.subrange(6, k as int),
        decreases end - k,
    {
        payload.push(line[k]);
        assert(payload@ =~= l.subrange(6, k + 1));
        k = k + 1;
    }
    let ghost p = l.subrange(6, l.len() as int);
    assert(payload@ == p);
    let sentinel = payload.len() == 6 && payload[0] == 91u8 && payload[1] == 68u8 && payload[2]
        == 79u8 && payload[3] == 78u8 && payload[4] == 69u8 && payload[5] == 93u8;
    if sentinel {
        assert(p =~= done_payload());
        let mut done: Vec<StreamChunk> = Vec::new();
        done.push(StreamChunk { content: String::new(), chunk_type: ChunkType::Done, delta: false });
        assert(views(done@) =~= seq![done_event()]);
        return (done, false, true);
    }
    proof {
        if p == done_payload() {
            assert(p[0] == payload@[0]);
            assert(p[5] == payload@[5]);
        }
    }
    match parse_json(payload.as_slice()) {
        Some(j) => (delta_events_of(&j), true, false),
        None => {
            let none: Vec<StreamChunk> = Vec::new();
            assert(views(none@) =~= Seq::<Event>::empty());
            (none, false, false)
        },
    }
}

/// No event of `s` ends a stream.
pub open spec fn no_terminal(s: Seq<Event>) -> bool {
    forall|i: int| 0 <= i < s.len() ==> !is_terminal(#[trigger] s[i])
}

/// `s` ends with its only terminal or error event.
pub open spec fn ends_once(s: Seq<Event>) -> bool {
    s.len() > 0 && is_terminal(s.last()) && no_terminal(s.drop_last())
}

proof fn lemma_no_terminal_concat(a: Seq<Event>, b: Seq<Event>)
    requires
        no_terminal(a),
        no_terminal(b),
    ensures
        no_terminal(a + b),
{
    assert forall|i: int| 0 <= i < (a + b).len() implies !is_terminal(#[trigger] (a + b)[i]) by {
        if i < a.len() {
            assert((a + b)[i] == a[i]);
        } else {
            assert((a + b)[i] == b[i - a.len()]);
        }
    }
}

proof fn lemma_calls_no_terminal(calls: Seq<JsonValue>)
    ensures
        no_terminal(calls_events(calls)),
    decreases calls.len(),
{
    if calls.len() > 0 {
        lemma_calls_no_terminal(calls.drop_last());
        let c = calls.last();
        match field(c, "function"@) {
            Some(f) => {
                lemma_no_terminal_concat(
                    event_if(text_field(f, "name"@), ChunkType::ToolCall, true),
                    event_if(text_field(f, "arguments"@), ChunkType::ToolArgs, true),
                );
            },
            None => {},
        }
        lemma_no_terminal_concat(calls_events(calls.drop_last()), call_events(c));
    }
}

proof fn lemma_choices_no_terminal(choices: Seq<JsonValue>)
    ensures
        no_terminal(choices_events(choices)),
    decreases choices.len(),
{
    if choices.len() > 0 {
        lemma_choices_no_terminal(choices.drop_last());
        let c = choices.last();
        match field(c, "delta"@) {
            Some(d) => {
                lemma_calls_no_terminal(items(field(d, "tool_calls"@)));
                lemma_no_terminal_concat(
                    event_if(text_field(d, "content"@), ChunkType::Content, true),
                    calls_events(items(field(d, "tool_calls"@))),
                );
            },
            None => {},
        }
        lemma_no_terminal_concat(choices_events(choices.drop_last()), choice_events(c));
    }
}

proof fn lemma_scan_shape(lines: Seq<Seq<u8>>)
    ensures
        !scan(lines).2 ==> no_terminal(scan(lines).0),
        scan(lines).2 ==> ends_once(scan(lines).0) && scan(lines).0.last() == done_event(),
    decreases lines.len(),
{
    if lines.len() > 0 {
        lemma_scan_shape(lines.drop_last());
        let prev = scan(lines.drop_last());
        if !prev.2 {
            let e = line_effect(lines.last());
            match payload_of(lines.last()) {
                Some(p) => {
                    if p != done_payload() {
                        if let Some(j) = parsed_json(p) {
                            lemma_choices_no_terminal(items(field(j, "choices"@)));
                            lemma_no_terminal_concat(prev.0, e.0);
                        } else {
                            assert(prev.0 + e.0 =~= prev.0);
                        }
                    } else {
                        assert((prev.0 + e.0).drop_last() =~= prev.0);
                    }
                },
                None => {
                    assert(prev.0 + e.0 =~= prev.0);
                },
            }
        }
    }
}

/// A stream that has ended holds exactly one terminal or error event, and it
/// is the last one.
pub proof fn lemma_stream_ends_once(lines: Seq<Seq<u8>>, pending: Seq<u8>, body: Seq<u8>)
    ensures
        ends_once(stream_total(lines, pending, body)),
{
    let ls = closing_lines(lines, pending);
    let st = scan(ls);
    lemma_scan_shape(ls);
    let total = stream_total(lines, pending, body);
    if st.2 {
        assert(total =~= st.0);
    } else if st.1 {
        assert(total.drop_last() =~= st.0);
    } else {
        match parsed_json(body) {
            Some(j) => {
                let c = event_if(message_text(j), ChunkType::Content, false);
                assert(total.drop_last() =~= st.0 + c);
                lemma_no_terminal_concat(st.0, c);
            },
            None => {
                assert(total.drop_last() =~= st.0);
            },
        }
    }
}

proof fn lemma_delta_prefix(lines: Seq<Seq<u8>>, texts: Seq<Seq<char>>, k: int)
    requires
        0 <= k <= texts.len(),
        lines.len() == texts.len() + 1,
        forall|i: int|
            0 <= i < texts.len() ==> line_effect(#[trigger] lines[i]) == (
                seq![(texts[i], ChunkType::Content, true)],
                true,
                false,
            ),
    ensures
        scan(lines.subrange(0, k)) == (
            texts.subrange(0, k).map_values(|t: Seq<char>| (t, ChunkType::Content, true)),
            k > 0,
            false,
        ),
    decreases k,
{
    if k == 0 {
        assert(lines.subrange(0, 0) =~= Seq::<Seq<u8>>::empty());
        assert(texts.subrange(0, 0).map_values(|t: Seq<char>| (t, ChunkType::Content, true)) =~= Seq::<Event>::empty());
    } else {
        lemma_delta_prefix(lines, texts, k - 1);
        let ls = lines.subrange(0, k);
        assert(ls.drop_last() =~= lines.subrange(0, k - 1));
        assert(ls.last() == lines[k - 1]);
        assert(texts.subrange(0, k).map_values(|t: Seq<char>| (t, ChunkType::Content, true)) =~= texts.subrange(
            0,
            k - 1,
        ).map_values(|t: Seq<char>| (t, ChunkType::Content, true)) + seq![(texts[k - 1], ChunkType::Content, true)]);
    }
}

/// Content deltas closed by the sentinel: one content event per delta, in
/// order, then one terminal event, after which the stream is closed.
pub proof fn law_deltas_then_sentinel(lines: Seq<Seq<u8>>, texts: Seq<Seq<char>>)
    requires
        lines.len() == texts.len() + 1,
        forall|i: int|
            0 <= i < texts.len() ==> line_effect(#[trigger] lines[i]) == (
                seq![(texts[i], ChunkType::Content, true)],
                true,
                false,
            ),
        payload_of(lines.last()) == Some(done_payload()),
    ensures
        scan(lines).0 == texts.map_values(|t: Seq<char>| (t, ChunkType::Content, true)).push(
            done_event(),
        ),
        scan(lines).2,
{
    let n = texts.len() as int;
    lemma_delta_prefix(lines, texts, n);
    assert(lines.drop_last() =~= lines.subrange(0, n));
    assert(texts.subrange(0, n) =~= texts);
}

/// Where no byte is a line feed, nothing is ended and everything is pending.
proof fn lemma_split_no_newline(pending: Seq<u8>, chunk: Seq<u8>)
    requires
        forall|i: int| 0 <= i < chunk.len() ==> chunk[i] != 10u8,
    ensures
        split_lines(pending, chunk) == (Seq::<Seq<u8>>::empty(), pending + chunk),
    decreases chunk.len(),
{
    if chunk.len() == 0 {
        assert(pending + chunk =~= pending);
    } else {
        lemma_split_no_newline(pending, chunk.drop_last());
        assert(pending + chunk =~= (pending + chunk.drop_last()).push(chunk.last()));
    }
}

/// An event-stream answer that is only the sentinel yields one terminal event
/// and no content.
pub proof fn law_sentinel_only()
    ensures
        decode_body(data_prefix() + done_payload()) == seq![done_event()],
{
    let body = data_prefix() + done_payload();
    assert(body =~= seq![100u8, 97u8, 116u8, 97u8, 58u8, 32u8, 91u8, 68u8, 79u8, 78u8, 69u8, 93u8]);
    lemma_split_no_newline(Seq::empty(), body);
    assert(Seq::<u8>::empty() + body =~= body);
    let ls = closing_lines(Seq::empty(), body);
    assert(ls.drop_last() =~= Seq::<Seq<u8>>::empty());
    assert(strip_cr(body) == body);
    assert(body.subrange(0, 6) =~= data_prefix());
    assert(body.subrange(6, 12) =~= done_payload());
    assert(line_effect(body) == (seq![done_event()], false, true));
    assert(ls.len() == 1 && ls.last() == body);
    assert(scan(ls.drop_last()) == (Seq::<Event>::empty(), false, false));
    assert(Seq::<Event>::empty() + seq![done_event()] =~= seq![done_event()]);
    assert(scan(ls).0 =~= seq![done_event()]);
    assert(decode_body(body) == scan(ls).0 + closing_events(scan(ls), body));
    assert(scan(ls).0 + Seq::<Event>::empty() =~= scan(ls).0);
}

proof fn lemma_scan_unframed(lines: Seq<Seq<u8>>)
    requires
        forall|i: int| 0 <= i < lines.len() ==> payload_of(#[trigger] lines[i]) is None,
    ensures
        scan(lines) == (Seq::<Event>::empty(), false, false),
    decreases lines.len(),
{
    if lines.len() > 0 {
        assert forall|i: int| 0 <= i < lines.drop_last().len() implies payload_of(
            #[trigger] lines.drop_last()[i],
        ) is None by {
            assert(lines.drop_last()[i] == lines[i]);
        }
        lemma_scan_unframed(lines.drop_last());
        assert(payload_of(lines[lines.len() - 1]) is None);
        assert(Seq::<Event>::empty() + Seq::<Event>::empty() =~= Seq::<Event>::empty());
    }
}

/// A single JSON document, with no event-stream lines, yields at most one
/// content event, which is not a delta, and then one terminal event.
pub proof fn law_single_document(body: Seq<u8>)
    requires
        parsed_json(body) is Some,
        forall|i: int|
            0 <= i < closing_lines(split_lines(Seq::empty(), body).0, split_lines(Seq::empty(), body).1).len()
                ==> payload_of(
                #[trigger] closing_lines(split_lines(Seq::empty(), body).0, split_lines(Seq::empty(), body).1)[i],
            ) is None,
    ensures
        decode_body(body) == event_if(message_text(parsed_json(body)->0), ChunkType::Content, false).push(
            done_event(),
        ),
        decode_body(body).len() <= 2,
        decode_body(body).last() == done_event(),
        forall|i: int|
            0 <= i < decode_body(body).len() - 1 ==> (#[trigger] decode_body(body)[i]).1
                == ChunkType::Content && !decode_body(body)[i].2,
{
    let split = split_lines(Seq::empty(), body);
    lemma_scan_unframed(closing_lines(split.0, split.1));
    let st = scan(closing_lines(split.0, split.1));
    assert(st.0 + closing_events(st, body) =~= closing_events(st, body));
}

/// Reading bytes in two pieces ends the same lines, and leaves the same bytes
/// pending, as reading them at once: what the decoder hands out does not
/// depend on how the answer was cut into chunks.
pub proof fn law_chunking_irrelevant(pending: Seq<u8>, a: Seq<u8>, b: Seq<u8>)
    ensures
        ({
            let first = split_lines(pending, a);
            let second = split_lines(first.1, b);
            let whole = split_lines(pending, a + b);
            first.0 + second.0 == whole.0 && second.1 == whole.1
        }),
    decreases b.len(),
{
    let first = split_lines(pending, a);
    if b.len() == 0 {
        assert(a + b =~= a);
        assert(first.0 + Seq::<Seq<u8>>::empty() =~= first.0);
    } else {
        law_chunking_irrelevant(pending, a, b.drop_last());
        assert((a + b).drop_last() =~= a + b.drop_last());
        assert((a + b).last() == b.last());
        let prev = split_lines(first.1, b.drop_last());
        assert(first.0 + prev.0.push(prev.1) =~= (first.0 + prev.0).push(prev.1));
    }
}

/// An incremental decoder: bytes go in as they arrive, events come out as soon
/// as the lines that carry them are complete.
pub struct StreamDecoder {
    pending: Vec<u8>,
    body: Vec<u8>,
    saw_delta: bool,
    closed: bool,
    lines: Ghost<Seq<Seq<u8>>>,
    events: Ghost<Seq<Event>>,
}

impl StreamDecoder {
    /// The complete lines received so far.
    pub closed spec fn lines(&self) -> Seq<Seq<u8>> {
        self.lines@
    }

    /// The bytes of the line not yet ended.
    pub closed spec fn pending(&self) -> Seq<u8> {
        self.pending@
    }

    /// Every byte received so far.
    pub closed spec fn body(&self) -> Seq<u8> {
        self.body@
    }

    /// Every event handed out so far.
    pub closed spec fn events(&self) -> Seq<Event> {
        self.events@
    }

    /// Whether the terminal or error event has been handed out.
    pub closed spec fn is_closed(&self) -> bool {
        self.closed
    }

    pub closed spec fn wf(&self) -> bool {
        !self.closed ==> scan(self.lines@) == (self.events@, self.saw_delta, false)
    }

    pub fn new() -> (r: StreamDecoder)
        ensures
            r.wf(),
            !r.is_closed(),
            r.lines() == Seq::<Seq<u8>>::empty(),
            r.pending() == Seq::<u8>::empty(),
            r.body() == Seq::<u8>::empty(),
            r.events() == Seq::<Event>::empty(),
    {
        StreamDecoder {
            pending: Vec::new(),
            body: Vec::new(),
            saw_delta: false,
            closed: false,
            lines: Ghost(Seq::empty()),
            events: Ghost(Seq::empty()),
        }
    }

    /// Reads one complete line, unless the stream is already closed.
    fn take_line(&mut self, line: &Vec<u8>) -> (r: Vec<StreamChunk>)
        requires
            old(self).wf(),
            old(self).closed ==> scan(old(self).lines@).2 && old(self).events@ == scan(
                old(self).lines@,
            ).0,
        ensures
            final(self).wf(),
            final(self).lines@ == old(self).lines@.push(line@),
            final(self).pending@ == old(self).pending@,
            final(self).body@ == old(self).body@,
            final(self).events@ == old(self).events@ + views(r@),
            final(self).events@ == scan(final(self).lines@).0,
            final(self).closed == scan(final(self).lines@).2,
    {
        let ghost lines = self.lines@.push(line@);
        assert(lines.drop_last() =~= self.lines@);
        if self.closed {
            self.lines = Ghost(lines);
            let none: Vec<StreamChunk> = Vec::new();
            assert(self.events@ =~= old(self).events@ + views(none@));
            return none;
        }
        let (evs, parsed, sentinel) = line_effect_of(line);
        self.saw_delta = self.saw_delta || parsed;
        self.closed = sentinel;
        self.lines = Ghost(lines);
        self.events = Ghost(self.events@ + views(evs@));
        evs
    }

    /// Takes the next bytes of the answer and returns the events of the lines
    /// they complete. After the sentinel nothing more is read.
    pub fn feed(&mut self, chunk: &[u8]) -> (r: Vec<StreamChunk>)
        requires
            old(self).wf(),
        ensures
            final(self).wf(),
            final(self).events() == old(self).events() + views(r@),
            old(self).is_closed() ==> r@.len() == 0 && final(self).is_closed(),
            !old(self).is_closed() ==> ({
                let split = split_lines(old(self).pending(), chunk@);
                &&& final(self).lines() == old(self).lines() + split.0
                &&& final(self).pending() == split.1
                &&& final(self).body() == old(self).body() + chunk@
                &&& final(self).events() == scan(final(self).lines()).0
                &&& final(self).is_closed() == scan(final(self).lines()).2
            }),
    {
        let mut out: Vec<StreamChunk> = Vec::new();
        if self.closed {
            assert(self.events@ =~= old(self).events@ + views(out@));
            return out;
        }
        let ghost added: Seq<Seq<u8>> = Seq::empty();
        let mut i: usize = 0;
        assert(chunk@.subrange(0, 0) =~= Seq::<u8>::empty());
        assert(self.lines@ + added =~= self.lines@);
        assert(self.events@ =~= old(self).events@ + views(out@));
        assert(self.body@ + chunk@.subrange(0, 0) =~= self.body@);
        while i < chunk.len()
            invariant
                0 <= i <= chunk.len(),
                !old(self).closed,
                old(self).wf(),
                self.wf(),
                split_lines(old(self).pending@, chunk@.subrange(0, i as int)) == (added, self.pending@),
                self.lines@ == old(self).lines@ + added,
                self.body@ == old(self).body@ + chunk@.subrange(0, i as int),
                self.events@ == old(self).events@ + views(out@),
                self.closed ==> scan(self.lines@).2 && self.events@ == scan(self.lines@).0,
            decreases chunk.len() - i,
        {
            let b = chunk[i];
            assert(chunk@.subrange(0, i + 1).drop_last() =~= chunk@.subrange(0, i as int));
            assert(chunk@.subrange(0, i + 1) =~= chunk@.subrange(0, i as int).push(b));
            self.body.push(b);
            if b == 10u8 {
                let mut line: Vec<u8> = Vec::new();
                std::mem::swap(&mut line, &mut self.pending);
                let ghost ev_before = self.events@;
                let mut evs = self.take_line(&line);
                let ghost new_evs = evs@;
                let ghost prev_out = out@;
                proof {
                    lemma_views_concat(out@, evs@);
                    added = added.push(line@);
                }
                out.append(&mut evs);
                assert(out@ == prev_out + new_evs);
                assert(self.events@ == ev_before + views(new_evs));
                assert(self.events@ =~= old(self).events@ + views(out@));
                assert(self.lines@ =~= old(self).lines@ + added);
            } else {
                self.pending.push(b);
            }
            i = i + 1;
        }
        assert(chunk@.subrange(0, chunk@.len() as int) =~= chunk@);
        out
    }

    /// Ends the answer: reads the unterminated last line, then hands out the
    /// terminal event, or the content of a whole JSON answer and the terminal
    /// event, or an error event where the answer was neither.
    pub fn finish(&mut self) -> (r: Vec<StreamChunk>)
        requires
            old(self).wf(),
        ensures
            final(self).is_closed(),
            final(self).events() == old(self).events() + views(r@),
            old(self).is_closed() ==> r@.len() == 0,
            !old(self).is_closed() ==> final(self).events() == stream_total(
                old(self).lines(),
                old(self).pending(),
                old(self).body(),
            ),
            !old(self).is_closed() ==> ends_once(final(self).events()),
    {
        proof {
            lemma_stream_ends_once(self.lines@, self.pending@, self.body@);
        }
        let mut out: Vec<StreamChunk> = Vec::new();
        if self.closed {
            assert(self.events@ =~= old(self).events@ + views(out@));
            return out;
        }
        if self.pending.len() > 0 {
            let mut line: Vec<u8> = Vec::new();
            std::mem::swap(&mut line, &mut self.pending);
            out = self.take_line(&line);
        } else {
            assert(self.events@ =~= old(self).events@ + views(out@));
        }
        let ghost st = scan(self.lines@);
        assert(self.lines@ == closing_lines(old(self).lines@, old(self).pending@));
        if !self.closed {
            let ghost before = self.events@;
            let mut tail: Vec<StreamChunk> = Vec::new();
            if self.saw_delta {
                tail.push(StreamChunk { content: String::new(), chunk_type: ChunkType::Done, delta: false });
            } else {
                match parse_json(self.body.as_slice()) {
                    Some(j) => {
                        let ghost text = message_text(j);
                        match member_of(&j, "choices") {
                            Some(JsonValue::Array(choices)) => {
                                if choices.len() > 0 {
                                    match member_of(&choices[0], "message") {
                                        Some(m) => push_text_event(m, "content", ChunkType::Content, false, &mut tail),
                                        None => {},
                                    }
                                }
                            },
                            _ => {},
                        }
                        assert(views(tail@) =~= event_if(text, ChunkType::Content, false));
                        let done = StreamChunk { content: String::new(), chunk_type: ChunkType::Done, delta: false };
                        proof {
                            lemma_views_push(tail@, done);
                        }
                        tail.push(done);
                    },
                    None => {
                        let text = crate::text::concat("Failed to parse response: ", utf8_lossy(self.body.as_slice()).as_str());
                        tail.push(StreamChunk { content: text, chunk_type: ChunkType::Error, delta: false });
                    },
                }
            }
            assert(views(tail@) =~= closing_events(st, self.body@));
            proof {
                lemma_views_concat(out@, tail@);
            }
            out.append(&mut tail);
            self.events = Ghost(self.events@ + closing_events(st, self.body@));
            self.closed = true;
        }
        out
    }

    /// Ends the answer on a transport failure: one error event carrying the
    /// failure's text, unless the stream is already closed.
    pub fn fail(&mut self, message: String) -> (r: Vec<StreamChunk>)
        requires
            old(self).wf(),
        ensures
            final(self).is_closed(),
            final(self).events() == old(self).events() + views(r@),
            old(self).is_closed() ==> r@.len() == 0,
            !old(self).is_closed() ==> views(r@) == seq![(message@, ChunkType::Error, false)],
    {
        let mut out: Vec<StreamChunk> = Vec::new();
        if !self.closed {
            out.push(StreamChunk { content: message, chunk_type: ChunkType::Error, delta: false });
            self.closed = true;
        }
        assert(views(out@) =~= if old(self).closed { Seq::<Event>::empty() } else { seq![(message@, ChunkType::Error, false)] });
        self.events = Ghost(self.events@ + views(out@));
        out
    }
}

} // verus!
