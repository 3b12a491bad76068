//! Decoding of OpenAI event streams: each data chunk becomes stream
//! events.

use vstd::prelude::*;
use vstd::string::StrSliceExecFns;
use crate::json::{array_of, field, field_of, jviews, str_of, u64_of, Json, JsonView};
use crate::openai::{finish_reason_named, finish_reason_of, first_choice, openai_usage, str_or, usage_of};
use crate::provider::{deltas_not_empty, event_views, FinishReason, StreamEvent, StreamEventView, Usage};
use crate::json::opt_jview;
use crate::codec::{parse_json, parsed_json};
use crate::wire::{data_payload, stream_line, StreamLine};

verus! {

/// A text of a value, or empty.
fn text_or_empty(j: Option<&Json>) -> (r: String)
    ensures
        r@ == str_or(opt_jview(j), Seq::empty()),
{
    match j {
        Some(v) => match v.as_str() {
            Some(s) => String::from_str(s),
            None => String::new(),
        },
        None => String::new(),
    }
}

/// The tool call index of a streamed tool call delta, 0 when missing.
pub open spec fn stream_index(tc: JsonView) -> usize {
    match u64_of(field(tc, "index"@)) {
        Some(n) => n as usize,
        None => 0,
    }
}

/// The events of one streamed tool call delta: its start when it carries
/// an id, then its arguments chunk when not empty.
#[verifier::opaque]
pub open spec fn tool_call_events(tc: JsonView) -> Seq<StreamEventView> {
    let index = stream_index(tc);
    let start = match str_of(field(tc, "id"@)) {
        Some(id) => seq![
            StreamEventView::ToolCallStart {
                index,
                id,
                name: str_or(field_of(field(tc, "function"@), "name"@), Seq::empty()),
            },
        ],
        None => Seq::empty(),
    };
    let delta = match str_of(field_of(field(tc, "function"@), "arguments"@)) {
        Some(a) => if a.len() > 0 {
            seq![StreamEventView::ToolCallDelta { index, arguments_delta: a }]
        } else {
            Seq::empty()
        },
        None => Seq::empty(),
    };
    start + delta
}

/// The events of a list of streamed tool call deltas, in order.
#[verifier::opaque]
pub open spec fn tool_calls_events(tcs: Seq<JsonView>) -> Seq<StreamEventView>
    decreases tcs.len(),
{
    if tcs.len() == 0 {
        Seq::empty()
    } else {
        tool_calls_events(tcs.drop_last()) + tool_call_events(tcs.last())
    }
}

/// The delta of a streamed chunk's first choice.
pub open spec fn chunk_delta(chunk: JsonView) -> Option<JsonView> {
    field_of(first_choice(chunk), "delta"@)
}

/// The text event of a streamed chunk, when its delta has text.
pub open spec fn content_events(chunk: JsonView) -> Seq<StreamEventView> {
    match str_of(field_of(chunk_delta(chunk), "content"@)) {
        Some(d) => if d.len() > 0 {
            seq![StreamEventView::ContentDelta(d)]
        } else {
            Seq::empty()
        },
        None => Seq::empty(),
    }
}

/// The tool call deltas of a streamed chunk.
pub open spec fn chunk_tool_calls(chunk: JsonView) -> Seq<JsonView> {
    match array_of(field_of(chunk_delta(chunk), "tool_calls"@)) {
        Some(a) => a,
        None => Seq::empty(),
    }
}

/// Decoder of an OpenAI event stream. The finish reason and the usage come
/// in separate chunks; the final event waits for both, or for the end of
/// the stream.
#[derive(Debug)]
pub struct OpenAiStreamDecoder {
    pending_finish: Option<FinishReason>,
    usage: Option<Usage>,
}

/// What a data chunk does to a decoder (`before`, then `after`) and the
/// events it yields: its text, its tool call starts and argument chunks,
/// then the final event once both the finish reason and the usage are
/// known.
pub open spec fn chunk_step(
    before: OpenAiStreamDecoder,
    chunk: JsonView,
    after: OpenAiStreamDecoder,
    events: Seq<StreamEventView>,
) -> bool {
    {
        let usage = match field(chunk, "usage"@) {
            Some(u) => Some(openai_usage(u)),
            None => before.usage(),
        };
        let pending = match str_of(field_of(first_choice(chunk), "finish_reason"@)) {
            Some(f) => Some(finish_reason_named(f)),
            None => before.pending(),
        };
        let base = content_events(chunk) + tool_calls_events(chunk_tool_calls(chunk));
        if pending is Some && usage is Some {
            &&& events == base.push(
                StreamEventView::Done { usage, finish_reason: pending },
            )
            &&& after.pending() is None
            &&& after.usage() is None
        } else {
            &&& events == base
            &&& after.pending() == pending
            &&& after.usage() == usage
        }
    }
}

/// What the end-of-stream marker does to a decoder and the events it
/// yields: a finish reason seen is reported, with the usage seen, if any.
pub open spec fn done_step(
    before: OpenAiStreamDecoder,
    after: OpenAiStreamDecoder,
    events: Seq<StreamEventView>,
) -> bool {
    match before.pending() {
        Some(f) => events == seq![
            StreamEventView::Done { usage: before.usage(), finish_reason: Some(f) },
        ] && after.pending() is None && after.usage() is None,
        None => events.len() == 0 && after.pending() is None && after.usage() == before.usage(),
    }
}

/// What a line of the stream does to a decoder, the events it yields and
/// whether the stream ends there: the `[DONE]` marker ends it; a data
/// chunk that parses is decoded; any other line changes nothing.
pub open spec fn line_step(
    before: OpenAiStreamDecoder,
    line: Seq<char>,
    after: OpenAiStreamDecoder,
    events: Seq<StreamEventView>,
    finished: bool,
) -> bool {
    match data_payload(line) {
        Some(d) => if d == "[DONE]"@ {
            finished && done_step(before, after, events)
        } else {
            !finished && match parsed_json(d) {
                Some(chunk) => chunk_step(before, chunk, after, events),
                None => events.len() == 0 && after == before,
            }
        },
        None => !finished && events.len() == 0 && after == before,
    }
}

impl OpenAiStreamDecoder {
    /// The finish reason seen and not yet reported.
    pub closed spec fn pending(&self) -> Option<FinishReason> {
        self.pending_finish
    }

    /// The usage seen and not yet reported.
    pub closed spec fn usage(&self) -> Option<Usage> {
        self.usage
    }

    /// A decoder that has seen nothing.
    pub fn new() -> (r: OpenAiStreamDecoder)
        ensures
            r.pending() is None,
            r.usage() is None,
    {
        OpenAiStreamDecoder { pending_finish: None, usage: None }
    }

    /// The end-of-stream marker: a finish reason seen is reported, with
    /// the usage seen, if any.
    pub fn on_done(&mut self) -> (r: Vec<StreamEvent>)
        ensures
            match old(self).pending() {
                Some(f) => event_views(r@) == seq![
                    StreamEventView::Done { usage: old(self).usage(), finish_reason: Some(f) },
                ] && final(self).pending() is None && final(self).usage() is None,
                None => r@.len() == 0 && final(self).pending() is None && final(self).usage()
                    == old(self).usage(),
            },
    {
        let mut out: Vec<StreamEvent> = Vec::new();
        match self.pending_finish {
            Some(f) => {
                out.push(StreamEvent::Done { usage: self.usage, finish_reason: Some(f) });
                self.pending_finish = None;
                self.usage = None;
                assert(event_views(out@) =~= seq![
                    StreamEventView::Done { usage: old(self).usage(), finish_reason: Some(f) },
                ]);
            },
            None => {},
        }
        out
    }

    /// A data chunk: its text, its tool call starts and argument chunks,
    /// then the final event once both the finish reason and the usage are
    /// known.
    #[verifier::spinoff_prover]
    pub fn on_chunk(&mut self, chunk: &Json) -> (r: Vec<StreamEvent>)
        ensures
            chunk_step(*old(self), chunk@, *final(self), event_views(r@)),
    {
        let mut out: Vec<StreamEvent> = Vec::new();
        push_opt(&mut out, content_event(chunk));
        assert(event_views(out@) =~= content_events(chunk@));
        append_chunk_calls(&mut out, chunk);
        match chunk_usage(chunk) {
            Some(u) => {
                self.usage = Some(u);
            },
            None => {},
        }
        match chunk_finish(chunk) {
            Some(f) => {
                self.pending_finish = Some(f);
            },
            None => {},
        }
        if self.pending_finish.is_some() && self.usage.is_some() {
            let ghost prev = event_views(out@);
            out.push(StreamEvent::Done { usage: self.usage, finish_reason: self.pending_finish });
            assert(event_views(out@) =~= prev.push(
                StreamEventView::Done { usage: self.usage, finish_reason: self.pending_finish },
            ));
            self.usage = None;
            self.pending_finish = None;
        }
        out
    }

    /// Takes one line of the stream; the flag tells whether the stream
    /// ends there.
    pub fn on_line(&mut self, line: &str) -> (r: (Vec<StreamEvent>, bool))
        ensures
            line_step(*old(self), line@, *final(self), event_views(r.0@), r.1),
    {
        proof {
            reveal_strlit("[DONE]");
        }
        match stream_line(line) {
            StreamLine::Skip => (Vec::new(), false),
            StreamLine::Done => (self.on_done(), true),
            StreamLine::Data(d) => match parse_json(d.as_str()) {
                Ok(chunk) => (self.on_chunk(&chunk), false),
                Err(_) => (Vec::new(), false),
            },
        }
    }
}

/// The usage of a chunk, if it has one.
fn chunk_usage(chunk: &Json) -> (r: Option<Usage>)
    ensures
        r == match field(chunk@, "usage"@) {
            Some(u) => Some(openai_usage(u)),
            None => None,
        },
{
    match chunk.get("usage") {
        Some(u) => Some(usage_of(u)),
        None => None,
    }
}

/// The finish reason of a chunk, if it has one.
fn chunk_finish(chunk: &Json) -> (r: Option<FinishReason>)
    ensures
        r == match str_of(field_of(first_choice(chunk@), "finish_reason"@)) {
            Some(f) => Some(finish_reason_named(f)),
            None => None,
        },
{
    let choice = match chunk.get("choices") {
        Some(c) => c.at(0),
        None => None,
    };
    match choice {
        Some(c) => match c.get("finish_reason") {
            Some(f) => match f.as_str() {
                Some(name) => Some(finish_reason_of(name)),
                None => None,
            },
            None => None,
        },
        None => None,
    }
}

/// The text event of a chunk.
fn content_event(chunk: &Json) -> (r: Option<StreamEvent>)
    ensures
        content_events(chunk@) == match r {
            Some(x) => seq![x@],
            None => Seq::empty(),
        },
{
    let choice = match chunk.get("choices") {
        Some(c) => c.at(0),
        None => None,
    };
    let delta = match choice {
        Some(c) => c.get("delta"),
        None => None,
    };
    match delta {
        Some(d) => match d.get("content") {
            Some(t) => match t.as_str() {
                Some(text) => {
                    if text.unicode_len() > 0 {
                        let e = StreamEvent::ContentDelta { delta: String::from_str(text) };
                        assert(content_events(chunk@) =~= seq![e@]);
                        Some(e)
                    } else {
                        None
                    }
                },
                None => None,
            },
            None => None,
        },
        None => None,
    }
}

/// Appends the events of the tool call deltas of a chunk.
fn append_chunk_calls(out: &mut Vec<StreamEvent>, chunk: &Json)
    ensures
        event_views(final(out)@) == event_views(old(out)@) + tool_calls_events(chunk_tool_calls(chunk@)),
{
    let choice = match chunk.get("choices") {
        Some(c) => c.at(0),
        None => None,
    };
    let delta = match choice {
        Some(c) => c.get("delta"),
        None => None,
    };
    let calls = match delta {
        Some(d) => match d.get("tool_calls") {
            Some(t) => t.as_array(),
            None => None,
        },
        None => None,
    };
    match calls {
        Some(tcs) => {
            append_tool_call_events(out, tcs);
        },
        None => {
            assert(chunk_tool_calls(chunk@) =~= Seq::empty());
            assert(tool_calls_events(Seq::empty()) == Seq::<StreamEventView>::empty()) by {
                reveal(tool_calls_events);
            }
            assert(event_views(out@) + tool_calls_events(Seq::empty()) =~= event_views(out@));
        },
    }
}

/// Appends the events of streamed tool call deltas.
fn append_tool_call_events(out: &mut Vec<StreamEvent>, tcs: &Vec<Json>)
    ensures
        event_views(final(out)@) == event_views(old(out)@) + tool_calls_events(jviews(tcs@)),
{
    let ghost start = event_views(out@);
    let ghost tv = jviews(tcs@);
    assert(tool_calls_events(tv.subrange(0, 0)) == Seq::<StreamEventView>::empty()) by {
        reveal(tool_calls_events);
    }
    assert(start + Seq::<StreamEventView>::empty() =~= start);
    let mut k: usize = 0;
    while k < tcs.len()
        invariant
            0 <= k <= tcs@.len(),
            tv == jviews(tcs@),
            event_views(out@) == start + tool_calls_events(tv.subrange(0, k as int)),
        decreases tcs@.len() - k,
    {
        let ghost w = tv.subrange(0, k + 1);
        assert(w.drop_last() =~= tv.subrange(0, k as int));
        assert(w.last() == tcs@[k as int]@);
        let ghost before = event_views(out@);
        push_tool_call_events(out, &tcs[k]);
        assert(tool_calls_events(w) == tool_calls_events(tv.subrange(0, k as int)) + tool_call_events(
            tcs@[k as int]@,
        )) by {
            reveal(tool_calls_events);
        }
        assert(event_views(out@) =~= start + tool_calls_events(w));
        k = k + 1;
    }
    assert(tv.subrange(0, tv.len() as int) =~= tv);
}

/// The tool call index of a streamed tool call delta.
fn index_of_call(tc: &Json) -> (r: usize)
    ensures
        r == stream_index(tc@),
{
    match tc.get("index") {
        Some(i) => match i.as_u64() {
            Some(n) => n as usize,
            None => 0,
        },
        None => 0,
    }
}

/// The start event of a streamed tool call delta, when it carries an id.
fn call_start(tc: &Json, index: usize) -> (r: Option<StreamEvent>)
    ensures
        match str_of(field(tc@, "id"@)) {
            Some(id) => r matches Some(e) && e@ == StreamEventView::ToolCallStart {
                index,
                id,
                name: str_or(field_of(field(tc@, "function"@), "name"@), Seq::empty()),
            },
            None => r is None,
        },
{
    match tc.get("id") {
        Some(v) => match v.as_str() {
            Some(id) => {
                let name = match tc.get("function") {
                    Some(f) => text_or_empty(f.get("name")),
                    None => String::new(),
                };
                Some(StreamEvent::ToolCallStart { index, id: String::from_str(id), name })
            },
            None => None,
        },
        None => None,
    }
}

/// The arguments event of a streamed tool call delta, when its arguments
/// chunk is not empty.
fn call_delta(tc: &Json, index: usize) -> (r: Option<StreamEvent>)
    ensures
        match str_of(field_of(field(tc@, "function"@), "arguments"@)) {
            Some(a) => if a.len() > 0 {
                r matches Some(e) && e@ == StreamEventView::ToolCallDelta { index, arguments_delta: a }
            } else {
                r is None
            },
            None => r is None,
        },
{
    match tc.get("function") {
        Some(f) => match f.get("arguments") {
            Some(a) => match a.as_str() {
                Some(args) => {
                    if args.unicode_len() > 0 {
                        Some(StreamEvent::ToolCallDelta { index, arguments_delta: String::from_str(args) })
                    } else {
                        None
                    }
                },
                None => None,
            },
            None => None,
        },
        None => None,
    }
}

/// Appends an optional event.
fn push_opt(out: &mut Vec<StreamEvent>, e: Option<StreamEvent>)
    ensures
        event_views(final(out)@) == event_views(old(out)@) + match e {
            Some(x) => seq![x@],
            None => Seq::empty(),
        },
{
    let ghost before = event_views(out@);
    match e {
        Some(x) => {
            let ghost xv = x@;
            out.push(x);
            assert(event_views(out@) =~= before + seq![xv]);
        },
        None => {
            assert(event_views(out@) =~= before + Seq::<StreamEventView>::empty());
        },
    }
}

/// Appends the events of one streamed tool call delta.
fn push_tool_call_events(out: &mut Vec<StreamEvent>, tc: &Json)
    ensures
        event_views(final(out)@) == event_views(old(out)@) + tool_call_events(tc@),
{
    let ghost start = event_views(out@);
    let index = index_of_call(tc);
    let s = call_start(tc, index);
    let d = call_delta(tc, index);
    let ghost sv = match &s {
        Some(x) => seq![x@],
        None => Seq::<StreamEventView>::empty(),
    };
    let ghost dv = match &d {
        Some(x) => seq![x@],
        None => Seq::<StreamEventView>::empty(),
    };
    push_opt(out, s);
    push_opt(out, d);
    assert(sv + dv =~= tool_call_events(tc@)) by {
        reveal(tool_call_events);
    }
    assert(event_views(out@) =~= start + tool_call_events(tc@));
}

/// The events of streamed tool call deltas carry no empty arguments chunk.
proof fn lemma_call_events_not_empty(tcs: Seq<JsonView>)
    ensures
        deltas_not_empty(tool_calls_events(tcs)),
    decreases tcs.len(),
{
    reveal(tool_calls_events);
    reveal(tool_call_events);
    if tcs.len() > 0 {
        lemma_call_events_not_empty(tcs.drop_last());
    }
}

/// No line of an OpenAI stream yields an empty text or arguments chunk.
pub proof fn law_stream_deltas_not_empty(
    before: OpenAiStreamDecoder,
    line: Seq<char>,
    after: OpenAiStreamDecoder,
    events: Seq<StreamEventView>,
    finished: bool,
)
    requires
        line_step(before, line, after, events, finished),
    ensures
        deltas_not_empty(events),
{
    match data_payload(line) {
        Some(d) => if d != "[DONE]"@ {
            match parsed_json(d) {
                Some(chunk) => {
                    lemma_call_events_not_empty(chunk_tool_calls(chunk));
                },
                None => {},
            }
        },
        None => {},
    }
}

/// A line of an OpenAI stream has one effect: from the same decoder state
/// it yields the same events, ends the stream or not alike, and leaves the
/// same finish reason and usage pending. With the framing law, a stream
/// decodes to the same events however it is cut into pieces.
pub proof fn law_line_step_deterministic(
    before: OpenAiStreamDecoder,
    line: Seq<char>,
    after1: OpenAiStreamDecoder,
    events1: Seq<StreamEventView>,
    finished1: bool,
    after2: OpenAiStreamDecoder,
    events2: Seq<StreamEventView>,
    finished2: bool,
)
    requires
        line_step(before, line, after1, events1, finished1),
        line_step(before, line, after2, events2, finished2),
    ensures
        events1 == events2,
        finished1 == finished2,
        after1.pending() == after2.pending(),
        after1.usage() == after2.usage(),
{
}

} // verus!
