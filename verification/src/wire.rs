//! Pieces shared by the providers' wire formats: HTTP status errors,
//! server-sent-event framing, token counts and the JSON values that travel
//! as text.

use vstd::prelude::*;
use vstd::string::StrSliceExecFns;
use crate::error::ProviderError;
use crate::json::{field, field_of, str_of, u64_of, Json, JsonView};
use crate::message::{Message, PartView};
use crate::codec::{render_json, rendered_json};

verus! {

/// The error a status code means before the body is read: 429 is a rate
/// limit (retry after a second), 401 a rejected key.
pub fn status_error(status: u16) -> (r: Option<ProviderError>)
    ensures
        status == 429 ==> (r matches Some(ProviderError::RateLimited { retry_after_ms })
            && retry_after_ms == 1000),
        status == 401 ==> (r matches Some(ProviderError::AuthenticationFailed(m)) && m@
            == "Invalid API key"@),
        status != 429 && status != 401 ==> r is None,
{
    if status == 429 {
        Some(ProviderError::RateLimited { retry_after_ms: 1000 })
    } else if status == 401 {
        Some(ProviderError::AuthenticationFailed(String::from_str("Invalid API key")))
    } else {
        None
    }
}

/// The message of an API error body: `error.message`, or "Unknown error".
pub open spec fn api_error_message(body: JsonView) -> Seq<char> {
    match str_of(field_of(field(body, "error"@), "message"@)) {
        Some(m) => m,
        None => "Unknown error"@,
    }
}

/// The error of a failed request (status 400 and above).
pub fn api_error(status: u16, body: &Json) -> (r: ProviderError)
    ensures
        r matches ProviderError::Api { status: s, message } && s == status && message@
            == api_error_message(body@),
{
    let message = match body.get("error") {
        Some(e) => match e.get("message") {
            Some(m) => match m.as_str() {
                Some(t) => String::from_str(t),
                None => String::from_str("Unknown error"),
            },
            None => String::from_str("Unknown error"),
        },
        None => String::from_str("Unknown error"),
    };
    ProviderError::Api { status, message }
}

/// A token count: a non-negative integer truncated to 32 bits, or 0.
pub open spec fn count_of(j: Option<JsonView>) -> u32 {
    match u64_of(j) {
        Some(n) => n as u32,
        None => 0,
    }
}

/// Reads a token count.
pub fn count_at(j: Option<&Json>) -> (r: u32)
    ensures
        r == count_of(match j {
            Some(x) => Some(x@),
            None => None,
        }),
{
    match j {
        Some(x) => match x.as_u64() {
            Some(n) => n as u32,
            None => 0,
        },
        None => 0,
    }
}

/// `parts` joined with `sep` between them.
pub open spec fn join(parts: Seq<Seq<char>>, sep: Seq<char>) -> Seq<char>
    decreases parts.len(),
{
    if parts.len() == 0 {
        Seq::empty()
    } else if parts.len() == 1 {
        parts[0]
    } else {
        join(parts.drop_last(), sep) + sep + parts.last()
    }
}

/// Joins texts with `sep` between them.
pub fn join_texts(parts: &Vec<String>, sep: &str) -> (r: String)
    ensures
        r@ == join(parts@.map_values(|p: String| p@), sep@),
{
    let ghost pv = parts@.map_values(|p: String| p@);
    let mut out = String::new();
    let mut i: usize = 0;
    while i < parts.len()
        invariant
            0 <= i <= parts@.len(),
            pv == parts@.map_values(|p: String| p@),
            out@ == join(pv.subrange(0, i as int), sep@),
        decreases parts@.len() - i,
    {
        let ghost w = pv.subrange(0, i + 1);
        assert(w.drop_last() =~= pv.subrange(0, i as int));
        if i > 0 {
            out = out.concat(sep);
        }
        out = out.concat(parts[i].as_str());
        assert(i == 0 ==> pv.subrange(0, i as int).len() == 0 && out@ =~= w[0]);
        i = i + 1;
    }
    assert(pv.subrange(0, parts@.len() as int) =~= pv);
    out
}

/// The JSON values of a message's parts that travel as text: the
/// arguments of each tool call and the content of each tool result, in
/// order.
pub open spec fn embedded_json(parts: Seq<PartView>) -> Seq<JsonView>
    decreases parts.len(),
{
    if parts.len() == 0 {
        Seq::empty()
    } else {
        let rest = embedded_json(parts.drop_last());
        match parts.last() {
            PartView::ToolCall { arguments, .. } => rest.push(arguments),
            PartView::ToolResult { content, .. } => rest.push(content),
            _ => rest,
        }
    }
}

/// The JSON values of each message that travel as text, message by message.
pub fn embedded_values(messages: &Vec<Message>) -> (r: Vec<Vec<Json>>)
    ensures
        r@.len() == messages@.len(),
        forall|i: int|
            0 <= i < messages@.len() ==> (#[trigger] r@[i])@.map_values(|j: Json| j@)
                == embedded_json(messages@[i]@.content),
{
    let mut out: Vec<Vec<Json>> = Vec::new();
    let mut i: usize = 0;
    while i < messages.len()
        invariant
            0 <= i <= messages@.len(),
            out@.len() == i,
            forall|k: int|
                0 <= k < i ==> (#[trigger] out@[k])@.map_values(|j: Json| j@) == embedded_json(
                    messages@[k]@.content,
                ),
        decreases messages@.len() - i,
    {
        out.push(message_embedded(&messages[i]));
        i = i + 1;
    }
    out
}

/// The renderings of the JSON values of each message that travel as text,
/// message by message.
pub open spec fn rendered_texts(ms: Seq<Message>) -> Seq<Seq<Seq<char>>> {
    Seq::new(
        ms.len(),
        |i: int| embedded_json(ms[i]@.content).map_values(|v: JsonView| rendered_json(v)),
    )
}

/// Renders the JSON values of each message that travel as text, message by
/// message.
pub fn embedded_texts(messages: &Vec<Message>) -> (r: Vec<Vec<String>>)
    ensures
        r@.len() == messages@.len(),
        forall|i: int|
            0 <= i < messages@.len() ==> (#[trigger] r@[i])@.map_values(|t: String| t@)
                == rendered_texts(messages@)[i],
{
    let values = embedded_values(messages);
    let mut out: Vec<Vec<String>> = Vec::new();
    let mut i: usize = 0;
    while i < values.len()
        invariant
            0 <= i <= values@.len(),
            values@.len() == messages@.len(),
            forall|k: int|
                0 <= k < messages@.len() ==> (#[trigger] values@[k])@.map_values(|j: Json| j@)
                    == embedded_json(messages@[k]@.content),
            out@.len() == i,
            forall|k: int|
                0 <= k < i ==> (#[trigger] out@[k])@.map_values(|t: String| t@)
                    == rendered_texts(messages@)[k],
        decreases values@.len() - i,
    {
        let vs = &values[i];
        let ghost target = rendered_texts(messages@)[i as int];
        assert(vs@.map_values(|j: Json| j@) == embedded_json(messages@[i as int]@.content));
        let mut texts: Vec<String> = Vec::new();
        let mut k: usize = 0;
        while k < vs.len()
            invariant
                0 <= k <= vs@.len(),
                target == embedded_json(messages@[i as int]@.content).map_values(
                    |v: JsonView| rendered_json(v),
                ),
                vs@.map_values(|j: Json| j@) == embedded_json(messages@[i as int]@.content),
                texts@.map_values(|t: String| t@) == target.subrange(0, k as int),
            decreases vs@.len() - k,
        {
            let t = render_json(&vs[k]);
            let ghost prev = texts@.map_values(|t: String| t@);
            texts.push(t);
            assert(target[k as int] == rendered_json(vs@[k as int]@));
            assert(texts@.map_values(|t: String| t@) =~= prev.push(target[k as int]));
            assert(target.subrange(0, k + 1) =~= target.subrange(0, k as int).push(
                target[k as int],
            ));
            k = k + 1;
        }
        assert(target.subrange(0, vs@.len() as int) =~= target);
        out.push(texts);
        i = i + 1;
    }
    out
}

fn message_embedded(m: &Message) -> (r: Vec<Json>)
    ensures
        r@.map_values(|j: Json| j@) == embedded_json(m@.content),
{
    let ghost parts = m@.content;
    let mut out: Vec<Json> = Vec::new();
    let mut i: usize = 0;
    while i < m.content.len()
        invariant
            0 <= i <= m.content@.len(),
            parts == m@.content,
            out@.map_values(|j: Json| j@) == embedded_json(parts.subrange(0, i as int)),
        decreases m.content@.len() - i,
    {
        let ghost w = parts.subrange(0, i + 1);
        assert(w.drop_last() =~= parts.subrange(0, i as int));
        let ghost prev = out@;
        match &m.content[i] {
            crate::message::ContentPart::ToolCall { arguments, .. } => {
                out.push(arguments.clone());
                assert(out@.map_values(|j: Json| j@) =~= prev.map_values(|j: Json| j@).push(
                    arguments@,
                ));
            },
            crate::message::ContentPart::ToolResult { content, .. } => {
                out.push(content.clone());
                assert(out@.map_values(|j: Json| j@) =~= prev.map_values(|j: Json| j@).push(
                    content@,
                ));
            },
            _ => {},
        }
        i = i + 1;
    }
    assert(parts.subrange(0, parts.len() as int) =~= parts);
    out
}

/// The index of the first newline of `s`.
pub open spec fn first_newline(s: Seq<char>) -> Option<int> {
    if exists|i: int| 0 <= i < s.len() && s[i] == '\n' {
        Some(choose|i: int| 0 <= i < s.len() && s[i] == '\n' && forall|j: int| 0 <= j < i ==> s[j] != '\n')
    } else {
        None
    }
}

proof fn lemma_least_newline(s: Seq<char>, w: int)
    requires
        0 <= w < s.len(),
        s[w] == '\n',
    ensures
        exists|i: int| 0 <= i < s.len() && s[i] == '\n' && forall|j: int| 0 <= j < i ==> s[j] != '\n',
    decreases w,
{
    if exists|j: int| 0 <= j < w && s[j] == '\n' {
        let j = choose|j: int| 0 <= j < w && s[j] == '\n';
        lemma_least_newline(s, j);
    } else {
        assert(forall|j: int| 0 <= j < w ==> s[j] != '\n');
    }
}

/// What `first_newline` finds: the first newline, or none at all.
pub proof fn lemma_first_newline(s: Seq<char>)
    ensures
        match first_newline(s) {
            Some(p) => 0 <= p < s.len() && s[p] == '\n' && forall|j: int| 0 <= j < p ==> s[j] != '\n',
            None => forall|j: int| 0 <= j < s.len() ==> s[j] != '\n',
        },
{
    if exists|i: int| 0 <= i < s.len() && s[i] == '\n' {
        let w = choose|i: int| 0 <= i < s.len() && s[i] == '\n';
        lemma_least_newline(s, w);
    }
}

/// `s` without its trailing carriage returns.
pub open spec fn trim_cr(s: Seq<char>) -> Seq<char>
    decreases s.len(),
{
    if s.len() > 0 && s.last() == '\r' {
        trim_cr(s.drop_last())
    } else {
        s
    }
}

/// Takes the first complete line out of a stream buffer: the text before
/// the first newline, without trailing carriage returns, and the rest of
/// the buffer after that newline; none while no newline has arrived.
pub fn take_line(buffer: &str) -> (r: Option<(String, String)>)
    ensures
        match first_newline(buffer@) {
            Some(p) => r matches Some((line, rest)) && line@ == trim_cr(buffer@.subrange(0, p))
                && rest@ == buffer@.subrange(p + 1, buffer@.len() as int),
            None => r is None,
        },
{
    let n = buffer.unicode_len();
    let mut i: usize = 0;
    while i < n
        invariant
            0 <= i <= n,
            n == buffer@.len(),
            forall|j: int| 0 <= j < i ==> buffer@[j] != '\n',
        decreases n - i,
    {
        if buffer.get_char(i) == '\n' {
            assert(first_newline(buffer@) == Some(i as int));
            let mut end: usize = i;
            let ghost head = buffer@.subrange(0, i as int);
            assert(trim_cr(head) == trim_cr(head.subrange(0, end as int))) by {
                assert(head.subrange(0, end as int) =~= head);
            }
            while end > 0 && buffer.get_char(end - 1) == '\r'
                invariant
                    0 <= end <= i,
                    i < n,
                    n == buffer@.len(),
                    head == buffer@.subrange(0, i as int),
                    trim_cr(head) == trim_cr(buffer@.subrange(0, end as int)),
                decreases end,
            {
                assert(buffer@.subrange(0, end as int).drop_last() =~= buffer@.subrange(
                    0,
                    end - 1,
                ));
                end = end - 1;
            }
            let line = String::from_str(buffer.substring_char(0, end));
            let rest = String::from_str(buffer.substring_char(i + 1, n));
            return Some((line, rest));
        }
        i = i + 1;
    }
    None
}

/// The complete lines of a stream text, as `take_line` takes them one after
/// the other: each without its trailing carriage returns.
#[verifier::opaque]
pub open spec fn frame_lines(s: Seq<char>) -> Seq<Seq<char>>
    decreases s.len(),
{
    match first_newline(s) {
        Some(p) => {
            proof {
                lemma_first_newline(s);
            }
            seq![trim_cr(s.subrange(0, p))] + frame_lines(s.subrange(p + 1, s.len() as int))
        },
        None => Seq::empty(),
    }
}

/// What remains of a stream text once its complete lines are taken: the
/// text after its last newline.
#[verifier::opaque]
pub open spec fn frame_rest(s: Seq<char>) -> Seq<char>
    decreases s.len(),
{
    match first_newline(s) {
        Some(p) => {
            proof {
                lemma_first_newline(s);
            }
            frame_rest(s.subrange(p + 1, s.len() as int))
        },
        None => s,
    }
}

/// A newline of `a` at `p`, with none before it, is the first newline of
/// `a + b`.
proof fn lemma_first_newline_concat(a: Seq<char>, b: Seq<char>)
    ensures
        first_newline(a) matches Some(p) ==> first_newline(a + b) == Some(p),
        first_newline(a) is None ==> first_newline(a + b) == match first_newline(b) {
            Some(q) => Some(a.len() + q),
            None => None::<int>,
        },
{
    lemma_first_newline(a);
    lemma_first_newline(b);
    lemma_first_newline(a + b);
    match first_newline(a) {
        Some(p) => {
            assert((a + b)[p] == '\n');
            match first_newline(a + b) {
                Some(q) => {
                    if q < p {
                        assert((a + b)[q] == a[q]);
                    }
                },
                None => {},
            }
        },
        None => {
            match first_newline(b) {
                Some(q) => {
                    assert((a + b)[a.len() + q] == '\n');
                    match first_newline(a + b) {
                        Some(r) => {
                            if r < a.len() {
                                assert((a + b)[r] == a[r]);
                            } else if r < a.len() + q {
                                assert((a + b)[r] == b[r - a.len()]);
                            }
                        },
                        None => {},
                    }
                },
                None => {
                    match first_newline(a + b) {
                        Some(r) => {
                            if r < a.len() {
                                assert((a + b)[r] == a[r]);
                            } else {
                                assert((a + b)[r] == b[r - a.len()]);
                            }
                        },
                        None => {},
                    }
                },
            }
        },
    }
}

/// One step of framing: at a first newline `p`, one line is taken.
proof fn lemma_frame_step(s: Seq<char>, p: int)
    requires
        first_newline(s) == Some(p),
    ensures
        frame_lines(s) == seq![trim_cr(s.subrange(0, p))] + frame_lines(s.subrange(p + 1, s.len() as int)),
        frame_rest(s) == frame_rest(s.subrange(p + 1, s.len() as int)),
{
    lemma_first_newline(s);
    reveal(frame_lines);
    reveal(frame_rest);
}

/// Without a newline, framing takes nothing.
proof fn lemma_frame_none(s: Seq<char>)
    requires
        first_newline(s) is None,
    ensures
        frame_lines(s) == Seq::<Seq<char>>::empty(),
        frame_rest(s) == s,
{
    reveal(frame_lines);
    reveal(frame_rest);
}

/// Framing does not depend on how the stream is cut into pieces: taking
/// the lines of `a`, then those of what remains of `a` followed by `b`,
/// gives the lines of `a + b`, and leaves the same remainder.
pub proof fn law_framing_ignores_chunking(a: Seq<char>, b: Seq<char>)
    ensures
        frame_lines(a + b) == frame_lines(a) + frame_lines(frame_rest(a) + b),
        frame_rest(a + b) == frame_rest(frame_rest(a) + b),
    decreases a.len(),
{
    lemma_first_newline(a);
    lemma_first_newline_concat(a, b);
    match first_newline(a) {
        Some(p) => {
            let tail = a.subrange(p + 1, a.len() as int);
            law_framing_ignores_chunking(tail, b);
            lemma_frame_step(a, p);
            lemma_frame_step(a + b, p);
            assert((a + b).subrange(0, p) =~= a.subrange(0, p));
            assert((a + b).subrange(p + 1, (a + b).len() as int) =~= tail + b);
            let line = seq![trim_cr(a.subrange(0, p))];
            assert(line + (frame_lines(tail) + frame_lines(frame_rest(tail) + b)) =~= (line
                + frame_lines(tail)) + frame_lines(frame_rest(tail) + b));
        },
        None => {
            lemma_frame_none(a);
            assert(Seq::<Seq<char>>::empty() + frame_lines(a + b) =~= frame_lines(a + b));
        },
    }
}

/// The pieces of a stream put back together, in order.
pub open spec fn joined(pieces: Seq<Seq<char>>) -> Seq<char>
    decreases pieces.len(),
{
    if pieces.len() == 0 {
        Seq::empty()
    } else {
        joined(pieces.drop_last()) + pieces.last()
    }
}

/// The lines a line buffer holding `start` gives, and what it holds after,
/// when the pieces are pushed into it one after the other.
pub open spec fn push_all(start: Seq<char>, pieces: Seq<Seq<char>>) -> (Seq<Seq<char>>, Seq<char>)
    decreases pieces.len(),
{
    if pieces.len() == 0 {
        (Seq::empty(), start)
    } else {
        let before = push_all(start, pieces.drop_last());
        let buffered = before.1 + pieces.last();
        (before.0 + frame_lines(buffered), frame_rest(buffered))
    }
}

/// Pushing pieces into a buffer that holds no complete line gives the
/// lines of what it holds followed by the pieces, and keeps the same
/// remainder.
proof fn lemma_push_all(start: Seq<char>, pieces: Seq<Seq<char>>)
    requires
        first_newline(start) is None,
    ensures
        push_all(start, pieces) == (
            frame_lines(start + joined(pieces)),
            frame_rest(start + joined(pieces)),
        ),
    decreases pieces.len(),
{
    if pieces.len() == 0 {
        assert(start + joined(pieces) =~= start);
        lemma_frame_none(start);
    } else {
        let rest = pieces.drop_last();
        lemma_push_all(start, rest);
        let a = start + joined(rest);
        let b = pieces.last();
        law_framing_ignores_chunking(a, b);
        assert(start + joined(pieces) =~= a + b);
    }
}

/// However a stream is cut into pieces, pushing them one after the other
/// into a new line buffer gives the lines of the whole text, and leaves
/// the same remainder.
pub proof fn law_framing_any_chunking(pieces: Seq<Seq<char>>)
    ensures
        push_all(Seq::empty(), pieces) == (frame_lines(joined(pieces)), frame_rest(joined(pieces))),
{
    let e = Seq::<char>::empty();
    if first_newline(e) is Some {
        lemma_first_newline(e);
    }
    lemma_push_all(e, pieces);
    assert(e + joined(pieces) =~= joined(pieces));
}

/// The buffer that cuts an event stream into lines as its pieces arrive.
#[derive(Debug)]
pub struct SseLineBuffer {
    pending: String,
}

impl View for SseLineBuffer {
    type V = Seq<char>;

    /// The text received after the last complete line.
    closed spec fn view(&self) -> Seq<char> {
        self.pending@
    }
}

impl SseLineBuffer {
    /// A buffer that has received nothing.
    pub fn new() -> (r: SseLineBuffer)
        ensures
            r@ == Seq::<char>::empty(),
    {
        SseLineBuffer { pending: String::new() }
    }

    /// Takes the next piece of the stream: gives the lines it completes,
    /// each without trailing carriage returns, and keeps the rest.
    pub fn push(&mut self, piece: &str) -> (r: Vec<String>)
        ensures
            r@.map_values(|l: String| l@) == frame_lines(old(self)@ + piece@),
            final(self)@ == frame_rest(old(self)@ + piece@),
    {
        let ghost whole = self.pending@ + piece@;
        let mut buffer = String::from_str(self.pending.as_str()).concat(piece);
        let mut out: Vec<String> = Vec::new();
        assert(out@.map_values(|l: String| l@) + frame_lines(buffer@) =~= frame_lines(whole));
        loop
            invariant
                out@.map_values(|l: String| l@) + frame_lines(buffer@) == frame_lines(whole),
                frame_rest(buffer@) == frame_rest(whole),
            ensures
                out@.map_values(|l: String| l@) == frame_lines(whole),
                buffer@ == frame_rest(whole),
            decreases buffer@.len(),
        {
            proof {
                lemma_first_newline(buffer@);
            }
            match take_line(buffer.as_str()) {
                Some((line, rest)) => {
                    let ghost prev = out@.map_values(|l: String| l@);
                    let ghost b = buffer@;
                    out.push(line);
                    assert(out@.map_values(|l: String| l@) =~= prev.push(line@));
                    buffer = rest;
                    proof {
                        lemma_frame_step(b, first_newline(b).unwrap());
                    }
                    assert(frame_lines(b) =~= seq![line@] + frame_lines(buffer@));
                    assert(prev.push(line@) + frame_lines(buffer@) =~= prev + frame_lines(b));
                },
                None => {
                    proof {
                        lemma_frame_none(buffer@);
                    }
                    assert(frame_lines(buffer@) =~= Seq::<Seq<char>>::empty());
                    assert(out@.map_values(|l: String| l@) =~= frame_lines(whole));
                    assert(frame_rest(buffer@) == buffer@);
                    break;
                },
            }
        }
        self.pending = buffer;
        out
    }
}

/// What a line of an OpenAI event stream carries.
#[derive(Debug)]
pub enum StreamLine {
    /// Not a data line.
    Skip,
    /// The end marker, `data: [DONE]`.
    Done,
    /// A data payload.
    Data(String),
}

/// Reads a line of an OpenAI event stream: a data line is its payload, or
/// the end when the payload is `[DONE]`; any other line is skipped.
pub fn stream_line(line: &str) -> (r: StreamLine)
    ensures
        match data_payload(line@) {
            Some(d) => if d == "[DONE]"@ {
                r is Done
            } else {
                r matches StreamLine::Data(p) && p@ == d
            },
            None => r is Skip,
        },
{
    match sse_data(line) {
        Some(d) => {
            if text_eq_str(d.as_str(), "[DONE]") {
                StreamLine::Done
            } else {
                StreamLine::Data(d)
            }
        },
        None => StreamLine::Skip,
    }
}

/// The error of a streamed request from its status and body text: any
/// status of 400 or more fails with the body as its message.
pub fn stream_status_error(status: u16, body: String) -> (r: Option<ProviderError>)
    ensures
        status >= 400 ==> (r matches Some(ProviderError::Api { status: s, message }) && s == status
            && message@ == body@),
        status < 400 ==> r is None,
{
    if status >= 400 {
        Some(ProviderError::Api { status, message: body })
    } else {
        None
    }
}

/// The payload of an event-stream line: what follows `"data: "`.
pub open spec fn data_payload(line: Seq<char>) -> Option<Seq<char>> {
    if line.len() >= 6 && line.subrange(0, 6) == "data: "@ {
        Some(line.subrange(6, line.len() as int))
    } else {
        None
    }
}

/// The payload of an event-stream line, if it is a data line.
pub fn sse_data(line: &str) -> (r: Option<String>)
    ensures
        match data_payload(line@) {
            Some(d) => r matches Some(s) && s@ == d,
            None => r is None,
        },
{
    proof {
        reveal_strlit("data: ");
    }
    let n = line.unicode_len();
    if n < 6 {
        return None;
    }
    let head = line.substring_char(0, 6);
    if text_eq_str(head, "data: ") {
        Some(String::from_str(line.substring_char(6, n)))
    } else {
        None
    }
}

fn text_eq_str(a: &str, b: &str) -> (r: bool)
    ensures
        r == (a@ == b@),
{
    crate::text::text_eq(a, b)
}

/// The lines of a text, as `str::lines` splits them: at each newline, with
/// one carriage return before it dropped; a last line needs no newline.
#[verifier::opaque]
pub open spec fn lines_of(s: Seq<char>) -> Seq<Seq<char>>
    decreases s.len(),
{
    match first_newline(s) {
        Some(p) => {
            proof {
                lemma_first_newline(s);
            }
            seq![drop_one_cr(s.subrange(0, p))] + lines_of(s.subrange(p + 1, s.len() as int))
        },
        None => if s.len() == 0 {
            Seq::empty()
        } else {
            seq![drop_one_cr(s)]
        },
    }
}

/// `s` without one trailing carriage return.
pub open spec fn drop_one_cr(s: Seq<char>) -> Seq<char> {
    if s.len() > 0 && s.last() == '\r' {
        s.drop_last()
    } else {
        s
    }
}

/// `s` without one trailing carriage return, taken from `text[from..to]`.
fn line_between(text: &str, from: usize, to: usize) -> (r: String)
    requires
        from <= to <= text@.len(),
    ensures
        r@ == drop_one_cr(text@.subrange(from as int, to as int)),
{
    if to > from && text.get_char(to - 1) == '\r' {
        assert(text@.subrange(from as int, to as int).drop_last() =~= text@.subrange(
            from as int,
            to - 1,
        ));
        String::from_str(text.substring_char(from, to - 1))
    } else {
        String::from_str(text.substring_char(from, to))
    }
}

proof fn lemma_lines_tail(s: Seq<char>, start: int)
    requires
        0 <= start <= s.len(),
        forall|j: int| start <= j < s.len() ==> s[j] != '\n',
    ensures
        lines_of(s.subrange(start, s.len() as int)) == if start == s.len() {
            Seq::<Seq<char>>::empty()
        } else {
            seq![drop_one_cr(s.subrange(start, s.len() as int))]
        },
{
    let sub = s.subrange(start, s.len() as int);
    reveal(lines_of);
    lemma_first_newline(sub);
    if first_newline(sub) is Some {
        let p = first_newline(sub).unwrap();
        assert(sub[p] == s[start + p]);
    }
}

proof fn lemma_lines_step(s: Seq<char>, start: int, i: int)
    requires
        0 <= start <= i < s.len(),
        s[i] == '\n',
        forall|j: int| start <= j < i ==> s[j] != '\n',
    ensures
        lines_of(s.subrange(start, s.len() as int)) == seq![drop_one_cr(s.subrange(start, i))]
            + lines_of(s.subrange(i + 1, s.len() as int)),
{
    let sub = s.subrange(start, s.len() as int);
    reveal(lines_of);
    assert(sub[i - start] == '\n');
    assert(forall|j: int| 0 <= j < i - start ==> sub[j] != '\n');
    lemma_first_newline(sub);
    let p = first_newline(sub).unwrap();
    if p < i - start {
        assert(sub[p] == s[start + p]);
    }
    if p > i - start {
        assert(sub[i - start] != '\n');
    }
    assert(p == i - start);
    assert(sub.subrange(0, i - start) =~= s.subrange(start, i));
    assert(sub.subrange(i - start + 1, sub.len() as int) =~= s.subrange(i + 1, s.len() as int));
}

/// Splits a text into lines, as `str::lines` does.
pub fn text_lines(text: &str) -> (r: Vec<String>)
    ensures
        r@.map_values(|l: String| l@) == lines_of(text@),
{
    let n = text.unicode_len();
    let mut out: Vec<String> = Vec::new();
    let mut start: usize = 0;
    let mut i: usize = 0;
    assert(text@.subrange(0, n as int) =~= text@);
    while i < n
        invariant
            0 <= start <= i <= n,
            n == text@.len(),
            lines_of(text@) == out@.map_values(|l: String| l@) + lines_of(
                text@.subrange(start as int, n as int),
            ),
            forall|j: int| start <= j < i ==> text@[j] != '\n',
        decreases n - i,
    {
        if text.get_char(i) == '\n' {
            proof {
                lemma_lines_step(text@, start as int, i as int);
            }
            let line = line_between(text, start, i);
            let ghost prev = out@.map_values(|l: String| l@);
            out.push(line);
            assert(out@.map_values(|l: String| l@) =~= prev + seq![
                drop_one_cr(text@.subrange(start as int, i as int)),
            ]);
            assert(lines_of(text@) =~= out@.map_values(|l: String| l@) + lines_of(
                text@.subrange(i + 1, n as int),
            ));
            start = i + 1;
        }
        i = i + 1;
    }
    let ghost sub = text@.subrange(start as int, n as int);
    proof {
        lemma_lines_tail(text@, start as int);
    }
    if start < n {
        let line = line_between(text, start, n);
        let ghost prev = out@;
        out.push(line);
        assert(out@.map_values(|l: String| l@) =~= prev.map_values(|l: String| l@) + seq![
            drop_one_cr(sub),
        ]);
    } else {
        assert(out@.map_values(|l: String| l@) + lines_of(sub) =~= out@.map_values(|l: String| l@));
    }
    out
}

/// The first `n` characters of `s` (all of them when it is shorter).
pub open spec fn prefix_chars(s: Seq<char>, n: nat) -> Seq<char> {
    if s.len() <= n {
        s
    } else {
        s.subrange(0, n as int)
    }
}

/// The error of a body that is not JSON: the parser's message and the
/// first 200 characters of the body.
pub fn parse_failure(error: &str, body: &str) -> (r: ProviderError)
    ensures
        r matches ProviderError::InvalidResponse(m) && m@ == "Failed to parse JSON: "@ + error@
            + ". Body starts with: "@ + prefix_chars(body@, 200),
{
    let n = body.unicode_len();
    let head = if n <= 200 {
        assert(body@.subrange(0, n as int) =~= body@);
        body.substring_char(0, n)
    } else {
        body.substring_char(0, 200)
    };
    ProviderError::InvalidResponse(
        String::from_str("Failed to parse JSON: ").concat(error).concat(". Body starts with: ").concat(
            head,
        ),
    )
}

/// The data payloads of event-stream lines, in order, without the
/// `[DONE]` marker.
pub open spec fn payloads(lines: Seq<Seq<char>>) -> Seq<Seq<char>>
    decreases lines.len(),
{
    if lines.len() == 0 {
        Seq::empty()
    } else {
        let rest = payloads(lines.drop_last());
        match data_payload(lines.last()) {
            Some(d) => if d == "[DONE]"@ {
                rest
            } else {
                rest.push(d)
            },
            None => rest,
        }
    }
}

/// The data payloads of an event-stream text, in order, without the
/// `[DONE]` marker; the caller parses each.
pub fn sse_payloads(text: &str) -> (r: Vec<String>)
    ensures
        r@.map_values(|s: String| s@) == payloads(lines_of(text@)),
{
    let lines = text_lines(text);
    let ghost lv = lines@.map_values(|l: String| l@);
    let mut out: Vec<String> = Vec::new();
    let mut i: usize = 0;
    while i < lines.len()
        invariant
            0 <= i <= lines@.len(),
            lv == lines@.map_values(|l: String| l@),
            out@.map_values(|s: String| s@) == payloads(lv.subrange(0, i as int)),
        decreases lines@.len() - i,
    {
        let ghost w = lv.subrange(0, i + 1);
        assert(w.drop_last() =~= lv.subrange(0, i as int));
        assert(w.last() == lines@[i as int]@);
        match sse_data(lines[i].as_str()) {
            Some(d) => {
                if !crate::text::text_eq(d.as_str(), "[DONE]") {
                    let ghost prev = out@.map_values(|s: String| s@);
                    out.push(d);
                    assert(out@.map_values(|s: String| s@) =~= prev.push(out@.last()@));
                }
            },
            None => {},
        }
        i = i + 1;
    }
    assert(lv.subrange(0, lv.len() as int) =~= lv);
    out
}

} // verus!
