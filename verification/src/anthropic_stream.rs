//! Decoding of Anthropic event streams: each event becomes stream events.

use vstd::prelude::*;
use vstd::string::StrSliceExecFns;
use crate::anthropic::{stop_reason_named, stop_reason_of};
use crate::json::{field, field_of, opt_jview, str_of, u64_of, Json, JsonView};
use crate::openai::str_or;
use crate::provider::{deltas_not_empty, event_views, FinishReason, StreamEvent, StreamEventView, Usage};
use crate::text::text_eq;
use crate::wire::{count_at, count_of, data_payload, sse_data};
use crate::codec::{parse_json, parsed_json};
verus! {

/// The index carried by an event, 0 when missing.
pub open spec fn event_index(event: JsonView) -> usize {
    match u64_of(field(event, "index"@)) {
        Some(n) => n as usize,
        None => 0,
    }
}

/// The kind of a value (its `type`), empty when missing.
pub open spec fn kind_of(j: JsonView) -> Seq<char> {
    str_or(field(j, "type"@), Seq::empty())
}

/// The events of a content block delta, with `tool_index` the index of the
/// tool call being streamed.
pub open spec fn delta_events(event: JsonView, tool_index: usize) -> Seq<StreamEventView> {
    match field(event, "delta"@) {
        Some(d) => if kind_of(d) == "text_delta"@ {
            match str_of(field(d, "text"@)) {
                Some(t) => if t.len() > 0 {
                    seq![StreamEventView::ContentDelta(t)]
                } else {
                    Seq::empty()
                },
                None => Seq::empty(),
            }
        } else if kind_of(d) == "input_json_delta"@ {
            match str_of(field(d, "partial_json"@)) {
                Some(p) => if p.len() > 0 {
                    seq![StreamEventView::ToolCallDelta { index: tool_index, arguments_delta: p }]
                } else {
                    Seq::empty()
                },
                None => Seq::empty(),
            }
        } else {
            Seq::empty()
        },
        None => Seq::empty(),
    }
}

/// The usage once a message delta reports `output` tokens: the completion
/// count replaced and the total recomputed (truncated to 32 bits); nothing
/// before the message started.
pub open spec fn with_output(usage: Option<Usage>, output: u32) -> Option<Usage> {
    match usage {
        Some(u) => Some(
            Usage { completion_tokens: output, total_tokens: (u.prompt_tokens + output) as u32, ..u },
        ),
        None => None,
    }
}

/// Decoder of an Anthropic event stream. It remembers the index of the
/// tool call being streamed and the usage reported so far.
#[derive(Debug)]
pub struct AnthropicStreamDecoder {
    current_tool_index: usize,
    usage: Option<Usage>,
}

/// Wrapping a 32-bit sum keeps its value modulo 2^32.
proof fn lemma_wrap32(a: u32, b: u32)
    by (bit_vector)
    ensures
        (if a + b > 0xffff_ffff {
            (a + b - 0x1_0000_0000) as u32
        } else {
            (a + b) as u32
        }) == (a + b) as u32,
{
}

/// What an event does to a decoder (`before`, then `after`) and the events
/// it yields.
pub open spec fn event_step(
    before: AnthropicStreamDecoder,
    event: JsonView,
    after: AnthropicStreamDecoder,
    events: Seq<StreamEventView>,
) -> bool {
    {
        let kind = kind_of(event);
        if kind == "content_block_start"@ {
            match field(event, "content_block"@) {
                Some(b) => if kind_of(b) == "tool_use"@ {
                    &&& after.tool_index() == event_index(event)
                    &&& after.usage() == before.usage()
                    &&& events == seq![
                        StreamEventView::ToolCallStart {
                            index: event_index(event),
                            id: str_or(field(b, "id"@), Seq::empty()),
                            name: str_or(field(b, "name"@), Seq::empty()),
                        },
                    ]
                } else {
                    &&& after == before
                    &&& events.len() == 0
                },
                None => {
                    &&& after == before
                    &&& events.len() == 0
                },
            }
        } else if kind == "content_block_delta"@ {
            &&& after == before
            &&& events == delta_events(event, before.tool_index())
        } else if kind == "message_delta"@ {
            let usage = match field(event, "usage"@) {
                Some(u) => with_output(before.usage(), count_of(field(u, "output_tokens"@))),
                None => before.usage(),
            };
            &&& after.tool_index() == before.tool_index()
            &&& after.usage() == usage
            &&& events == match str_of(field_of(field(event, "delta"@), "stop_reason"@)) {
                Some(s) => seq![
                    StreamEventView::Done { usage, finish_reason: Some(stop_reason_named(s)) },
                ],
                None => Seq::empty(),
            }
        } else if kind == "message_start"@ {
            &&& after.tool_index() == before.tool_index()
            &&& after.usage() == match field_of(field(event, "message"@), "usage"@) {
                Some(u) => Some(
                    Usage {
                        prompt_tokens: count_of(field(u, "input_tokens"@)),
                        completion_tokens: 0,
                        total_tokens: count_of(field(u, "input_tokens"@)),
                        cache_creation_input_tokens: 0,
                        cache_read_input_tokens: 0,
                    },
                ),
                None => before.usage(),
            }
            &&& events.len() == 0
        } else {
            &&& after == before
            &&& events.len() == 0
        }
    }
}

/// What a line of the stream does to a decoder and the events it yields:
/// a data line whose payload parses is taken as an event; any other line
/// changes nothing.
pub open spec fn line_event_step(
    before: AnthropicStreamDecoder,
    line: Seq<char>,
    after: AnthropicStreamDecoder,
    events: Seq<StreamEventView>,
) -> bool {
    match data_payload(line) {
        Some(d) => match parsed_json(d) {
            Some(event) => event_step(before, event, after, events),
            None => events.len() == 0 && after == before,
        },
        None => events.len() == 0 && after == before,
    }
}

impl AnthropicStreamDecoder {
    /// The index of the tool call being streamed.
    pub closed spec fn tool_index(&self) -> usize {
        self.current_tool_index
    }

    /// The usage reported so far.
    pub closed spec fn usage(&self) -> Option<Usage> {
        self.usage
    }

    /// A decoder that has seen nothing.
    pub fn new() -> (r: AnthropicStreamDecoder)
        ensures
            r.tool_index() == 0,
            r.usage() is None,
    {
        AnthropicStreamDecoder { current_tool_index: 0, usage: None }
    }

    /// Takes one event: a tool use block start opens a tool call; a content
    /// delta carries text or arguments; a message delta updates the output
    /// tokens and, with a stop reason, ends the stream; a message start
    /// reports the input tokens.
    #[verifier::spinoff_prover]
    pub fn on_event(&mut self, event: &Json) -> (r: Vec<StreamEvent>)
        ensures
            event_step(*old(self), event@, *final(self), event_views(r@)),
    {
        let kind = text_or_empty(event.get("type"));
        if text_eq(kind.as_str(), "content_block_start") {
            self.block_start(event)
        } else if text_eq(kind.as_str(), "content_block_delta") {
            self.block_delta(event)
        } else if text_eq(kind.as_str(), "message_delta") {
            self.message_delta(event)
        } else if text_eq(kind.as_str(), "message_start") {
            match event.get("message") {
                Some(m) => match m.get("usage") {
                    Some(u) => {
                        let input = count_at(u.get("input_tokens"));
                        self.usage = Some(
                            Usage {
                                prompt_tokens: input,
                                completion_tokens: 0,
                                total_tokens: input,
                                cache_creation_input_tokens: 0,
                                cache_read_input_tokens: 0,
                            },
                        );
                    },
                    None => {},
                },
                None => {},
            }
            Vec::new()
        } else {
            Vec::new()
        }
    }

    /// Takes one line of the stream.
    pub fn on_line(&mut self, line: &str) -> (r: Vec<StreamEvent>)
        ensures
            line_event_step(*old(self), line@, *final(self), event_views(r@)),
    {
        match sse_data(line) {
            Some(d) => match parse_json(d.as_str()) {
                Ok(event) => self.on_event(&event),
                Err(_) => Vec::new(),
            },
            None => Vec::new(),
        }
    }

    fn block_start(&mut self, event: &Json) -> (r: Vec<StreamEvent>)
        ensures
            match field(event@, "content_block"@) {
                Some(b) => if kind_of(b) == "tool_use"@ {
                    &&& final(self).tool_index() == event_index(event@)
                    &&& final(self).usage() == old(self).usage()
                    &&& event_views(r@) == seq![
                        StreamEventView::ToolCallStart {
                            index: event_index(event@),
                            id: str_or(field(b, "id"@), Seq::empty()),
                            name: str_or(field(b, "name"@), Seq::empty()),
                        },
                    ]
                } else {
                    &&& *final(self) == *old(self)
                    &&& r@.len() == 0
                },
                None => {
                    &&& *final(self) == *old(self)
                    &&& r@.len() == 0
                },
            },
    {
        let mut out: Vec<StreamEvent> = Vec::new();
        let index: usize = match event.get("index") {
            Some(i) => match i.as_u64() {
                Some(n) => n as usize,
                None => 0,
            },
            None => 0,
        };
        match event.get("content_block") {
            Some(b) => {
                let bk = text_or_empty(b.get("type"));
                if text_eq(bk.as_str(), "tool_use") {
                    self.current_tool_index = index;
                    let id = text_or_empty(b.get("id"));
                    let name = text_or_empty(b.get("name"));
                    out.push(StreamEvent::ToolCallStart { index, id, name });
                    assert(event_views(out@) =~= seq![out@[0]@]);
                }
            },
            None => {},
        }
        out
    }

    fn block_delta(&mut self, event: &Json) -> (r: Vec<StreamEvent>)
        ensures
            *final(self) == *old(self),
            event_views(r@) == delta_events(event@, old(self).tool_index()),
    {
        let mut out: Vec<StreamEvent> = Vec::new();
        match event.get("delta") {
            Some(d) => {
                let dk = text_or_empty(d.get("type"));
                if text_eq(dk.as_str(), "text_delta") {
                    match d.get("text") {
                        Some(t) => match t.as_str() {
                            Some(text) => {
                                if text.unicode_len() > 0 {
                                    out.push(StreamEvent::ContentDelta { delta: String::from_str(text) });
                                    assert(event_views(out@) =~= seq![out@[0]@]);
                                }
                            },
                            None => {},
                        },
                        None => {},
                    }
                } else if text_eq(dk.as_str(), "input_json_delta") {
                    match d.get("partial_json") {
                        Some(p) => match p.as_str() {
                            Some(partial) => {
                                if partial.unicode_len() > 0 {
                                    out.push(
                                        StreamEvent::ToolCallDelta {
                                            index: self.current_tool_index,
                                            arguments_delta: String::from_str(partial),
                                        },
                                    );
                                    assert(event_views(out@) =~= seq![out@[0]@]);
                                }
                            },
                            None => {},
                        },
                        None => {},
                    }
                }
            },
            None => {},
        }
        out
    }

    fn message_delta(&mut self, event: &Json) -> (r: Vec<StreamEvent>)
        ensures
            ({
                let usage = match field(event@, "usage"@) {
                    Some(u) => with_output(old(self).usage(), count_of(field(u, "output_tokens"@))),
                    None => old(self).usage(),
                };
                &&& final(self).tool_index() == old(self).tool_index()
                &&& final(self).usage() == usage
                &&& event_views(r@) == match str_of(field_of(field(event@, "delta"@), "stop_reason"@)) {
                    Some(s) => seq![
                        StreamEventView::Done { usage, finish_reason: Some(stop_reason_named(s)) },
                    ],
                    None => Seq::empty(),
                }
            }),
    {
        let mut out: Vec<StreamEvent> = Vec::new();
        match event.get("usage") {
            Some(u) => {
                let output = count_at(u.get("output_tokens"));
                match self.usage {
                    Some(ex) => {
                        let total = ex.prompt_tokens.wrapping_add(output);
                        proof {
                            lemma_wrap32(ex.prompt_tokens, output);
                        }
                        self.usage = Some(Usage { completion_tokens: output, total_tokens: total, ..ex });
                    },
                    None => {},
                }
            },
            None => {},
        }
        let stop = match event.get("delta") {
            Some(d) => match d.get("stop_reason") {
                Some(s) => s.as_str(),
                None => None,
            },
            None => None,
        };
        match stop {
            Some(reason) => {
                let f: FinishReason = stop_reason_of(reason);
                out.push(StreamEvent::Done { usage: self.usage, finish_reason: Some(f) });
                assert(event_views(out@) =~= seq![out@[0]@]);
            },
            None => {},
        }
        out
    }
}

/// A text of a value, or empty.
fn text_or_empty(j: Option<&Json>) -> (r: String)
    ensures
        r@ == str_or(opt_jview(j), Seq::empty()),
{
    match j {
        Some(v) => match v.as_str() {
            Some(s) => String::from_str(s),
            None => String::new(),
        },
        None => String::new(),
    }
}

/// No line of an Anthropic stream yields an empty text or arguments
/// chunk.
pub proof fn law_stream_deltas_not_empty(
    before: AnthropicStreamDecoder,
    line: Seq<char>,
    after: AnthropicStreamDecoder,
    events: Seq<StreamEventView>,
)
    requires
        line_event_step(before, line, after, events),
    ensures
        deltas_not_empty(events),
{
}

/// A line of an Anthropic stream has one effect: from the same decoder
/// state it yields the same events and leaves the same tool index and
/// usage. With the framing law, a stream decodes to the same events however
/// it is cut into pieces.
pub proof fn law_line_step_deterministic(
    before: AnthropicStreamDecoder,
    line: Seq<char>,
    after1: AnthropicStreamDecoder,
    events1: Seq<StreamEventView>,
    after2: AnthropicStreamDecoder,
    events2: Seq<StreamEventView>,
)
    requires
        line_event_step(before, line, after1, events1),
        line_event_step(before, line, after2, events2),
    ensures
        events1 == events2,
        after1.tool_index() == after2.tool_index(),
        after1.usage() == after2.usage(),
{
}

} // verus!
