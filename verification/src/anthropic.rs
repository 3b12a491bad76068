//! The Anthropic messages wire format: request bodies, responses and
//! streamed events.
//!
//! The system prompt is a top-level parameter rather than a message, and
//! tool results travel as user messages.

use vstd::prelude::*;
use crate::json::{
    array_of, entry_views, field, field_of, jstr, jviews, lemma_array_view, lemma_object_view,
    opt_jview, set_entry, str_of, u64_of, Json, JsonNumber, JsonView, NumberView,
};
use crate::message::{first_text, fresh_message_id, now, ContentPart, Message, MessageView, PartView, Role};
use crate::openai::{empty_object, str_or};
use crate::provider::{
    event_views, CompletionRequest, CompletionResponse, FinishReason, ProviderCapabilities,
    StreamEvent, StreamEventView, ToolDefinition, Usage,
};
use crate::error::ProviderError;
use crate::text::text_eq;
use crate::codec::{parse_json, parsed_json};
use crate::wire::{
    api_error, api_error_message, count_at, count_of, embedded_json, embedded_texts, rendered_texts,
    status_error,
};

verus! {

/// Configuration of the Anthropic provider.
#[derive(Debug)]
pub struct AnthropicProvider {
    api_key: String,
    base_url: String,
    extra_headers: Vec<(String, String)>,
}

impl AnthropicProvider {
    /// The API key.
    pub closed spec fn spec_api_key(&self) -> Seq<char> {
        self.api_key@
    }

    /// The base URL.
    pub closed spec fn spec_base_url(&self) -> Seq<char> {
        self.base_url@
    }

    /// The extra headers, in order.
    pub closed spec fn spec_extra_headers(&self) -> Seq<(Seq<char>, Seq<char>)> {
        self.extra_headers@.map_values(|h: (String, String)| (h.0@, h.1@))
    }

    /// A provider with `api_key`, the public endpoint and no extra header.
    pub fn new(api_key: &str) -> (r: AnthropicProvider)
        ensures
            r.spec_api_key() == api_key@,
            r.spec_base_url() == "https://api.anthropic.com/v1"@,
            r.spec_extra_headers().len() == 0,
    {
        let r = AnthropicProvider {
            api_key: String::from_str(api_key),
            base_url: String::from_str("https://api.anthropic.com/v1"),
            extra_headers: Vec::new(),
        };
        assert(r.spec_extra_headers() =~= Seq::empty());
        r
    }

    /// Sets the base URL.
    pub fn with_base_url(self, url: &str) -> (r: AnthropicProvider)
        ensures
            r.spec_base_url() == url@,
            r.spec_api_key() == self.spec_api_key(),
            r.spec_extra_headers() == self.spec_extra_headers(),
    {
        let mut p = self;
        p.base_url = String::from_str(url);
        p
    }

    /// Sets the extra headers sent with every request.
    pub fn with_extra_headers(self, headers: Vec<(String, String)>) -> (r: AnthropicProvider)
        ensures
            r.spec_extra_headers() == headers@.map_values(|h: (String, String)| (h.0@, h.1@)),
            r.spec_api_key() == self.spec_api_key(),
            r.spec_base_url() == self.spec_base_url(),
    {
        let mut p = self;
        p.extra_headers = headers;
        p
    }

    /// The provider's name.
    pub fn name(&self) -> (r: &'static str)
        ensures
            r@ == "anthropic"@,
    {
        "anthropic"
    }

    /// Streaming, tool calling, vision and structured output; no
    /// embeddings.
    pub fn capabilities(&self) -> (r: ProviderCapabilities)
        ensures
            r.streaming && r.tool_calling && r.vision && !r.embeddings && r.structured_output,
    {
        ProviderCapabilities {
            streaming: true,
            tool_calling: true,
            vision: true,
            embeddings: false,
            structured_output: true,
        }
    }

    /// The URL of the messages endpoint.
    pub fn messages_url(&self) -> (r: String)
        ensures
            r@ == self.spec_base_url() + "/messages"@,
    {
        self.base_url.clone().concat("/messages")
    }

    /// The headers of every request: the key, the API version, the JSON
    /// content type, then the extra headers.
    pub fn headers(&self) -> (r: Vec<(String, String)>)
        ensures
            r@.map_values(|h: (String, String)| (h.0@, h.1@)) == seq![
                ("x-api-key"@, self.spec_api_key()),
                ("anthropic-version"@, "2023-06-01"@),
                ("Content-Type"@, "application/json"@),
            ] + self.spec_extra_headers(),
    {
        let mut out: Vec<(String, String)> = Vec::new();
        out.push((String::from_str("x-api-key"), self.api_key.clone()));
        out.push((String::from_str("anthropic-version"), String::from_str("2023-06-01")));
        out.push((String::from_str("Content-Type"), String::from_str("application/json")));
        let ghost base = out@.map_values(|h: (String, String)| (h.0@, h.1@));
        let ghost extra = self.spec_extra_headers();
        let mut i: usize = 0;
        while i < self.extra_headers.len()
            invariant
                0 <= i <= self.extra_headers@.len(),
                extra == self.extra_headers@.map_values(|h: (String, String)| (h.0@, h.1@)),
                out@.map_values(|h: (String, String)| (h.0@, h.1@)) == base + extra.subrange(
                    0,
                    i as int,
                ),
            decreases self.extra_headers@.len() - i,
        {
            let ghost prev = out@.map_values(|h: (String, String)| (h.0@, h.1@));
            out.push((self.extra_headers[i].0.clone(), self.extra_headers[i].1.clone()));
            assert(out@.map_values(|h: (String, String)| (h.0@, h.1@)) =~= prev.push(extra[i as int]));
            assert(extra.subrange(0, i + 1) =~= extra.subrange(0, i as int).push(extra[i as int]));
            i = i + 1;
        }
        assert(extra.subrange(0, extra.len() as int) =~= extra);
        assert(base =~= seq![
            ("x-api-key"@, self.spec_api_key()),
            ("anthropic-version"@, "2023-06-01"@),
            ("Content-Type"@, "application/json"@),
        ]);
        out
    }
}

/// A text block.
pub open spec fn text_block(text: Seq<char>) -> JsonView {
    JsonView::Object(seq![("text"@, JsonView::Str(text)), ("type"@, JsonView::Str("text"@))])
}

/// An image block pointing at `url`.
pub open spec fn image_block(url: Seq<char>) -> JsonView {
    JsonView::Object(
        seq![
            (
                "source"@,
                JsonView::Object(seq![("type"@, JsonView::Str("url"@)), ("url"@, JsonView::Str(url))]),
            ),
            ("type"@, JsonView::Str("image"@)),
        ],
    )
}

/// A tool use block.
pub open spec fn tool_use_block(id: Seq<char>, name: Seq<char>, input: JsonView) -> JsonView {
    JsonView::Object(
        seq![
            ("id"@, JsonView::Str(id)),
            ("input"@, input),
            ("name"@, JsonView::Str(name)),
            ("type"@, JsonView::Str("tool_use"@)),
        ],
    )
}

/// A tool result block, with its content as text.
pub open spec fn tool_result_block(call_id: Seq<char>, content: Seq<char>, is_error: bool) -> JsonView {
    JsonView::Object(
        seq![
            ("content"@, JsonView::Str(content)),
            ("is_error"@, JsonView::Bool(is_error)),
            ("tool_use_id"@, JsonView::Str(call_id)),
            ("type"@, JsonView::Str("tool_result"@)),
        ],
    )
}

/// The blocks of a message's parts in the Anthropic format: users send
/// text and images, the assistant text and tool uses, tools their results.
/// `texts` holds the renderings of the message's embedded JSON values.
pub open spec fn blocks_of(role: Role, parts: Seq<PartView>, texts: Seq<Seq<char>>) -> Seq<JsonView>
    decreases parts.len(),
{
    if parts.len() == 0 {
        Seq::empty()
    } else {
        let prev = blocks_of(role, parts.drop_last(), texts);
        let k = embedded_json(parts.drop_last()).len() as int;
        match (role, parts.last()) {
            (Role::User, PartView::Text { text }) => prev.push(text_block(text)),
            (Role::User, PartView::Image { url, .. }) => prev.push(image_block(url)),
            (Role::Assistant, PartView::Text { text }) => prev.push(text_block(text)),
            (Role::Assistant, PartView::ToolCall { id, name, arguments }) => prev.push(
                tool_use_block(id, name, arguments),
            ),
            (Role::Tool, PartView::ToolResult { call_id, is_error, .. }) => prev.push(
                tool_result_block(call_id, texts[k], is_error),
            ),
            _ => prev,
        }
    }
}

/// A user message sends one block per text or image part, in order, and
/// nothing for its other parts: a text `t` as `{"text": t, "type":
/// "text"}`, an image at `u` as `{"source": {"type": "url", "url": u},
/// "type": "image"}`.
pub proof fn law_user_blocks(parts: Seq<PartView>, texts: Seq<Seq<char>>)
    ensures
        blocks_of(Role::User, parts, texts) == parts.filter(
            |p: PartView| p is Text || p is Image,
        ).map_values(
            |p: PartView|
                match p {
                    PartView::Text { text } => JsonView::Object(
                        seq![("text"@, JsonView::Str(text)), ("type"@, JsonView::Str("text"@))],
                    ),
                    PartView::Image { url, .. } => JsonView::Object(
                        seq![
                            (
                                "source"@,
                                JsonView::Object(
                                    seq![("type"@, JsonView::Str("url"@)), ("url"@, JsonView::Str(url))],
                                ),
                            ),
                            ("type"@, JsonView::Str("image"@)),
                        ],
                    ),
                    _ => JsonView::Null,
                },
        ),
    decreases parts.len(),
{
    reveal(Seq::filter);
    let kinds = |p: PartView| p is Text || p is Image;
    let block = |p: PartView|
        match p {
            PartView::Text { text } => JsonView::Object(
                seq![("text"@, JsonView::Str(text)), ("type"@, JsonView::Str("text"@))],
            ),
            PartView::Image { url, .. } => JsonView::Object(
                seq![
                    (
                        "source"@,
                        JsonView::Object(
                            seq![("type"@, JsonView::Str("url"@)), ("url"@, JsonView::Str(url))],
                        ),
                    ),
                    ("type"@, JsonView::Str("image"@)),
                ],
            ),
            _ => JsonView::Null,
        };
    if parts.len() == 0 {
        assert(parts.filter(kinds).map_values(block) =~= Seq::<JsonView>::empty());
    } else {
        law_user_blocks(parts.drop_last(), texts);
        let f = parts.drop_last().filter(kinds);
        if kinds(parts.last()) {
            assert(parts.filter(kinds) == f.push(parts.last()));
            assert(f.push(parts.last()).map_values(block) =~= f.map_values(block).push(
                block(parts.last()),
            ));
        } else {
            assert(parts.filter(kinds) == f);
        }
    }
}

/// An API message: its role and its blocks.
pub open spec fn api_message(role: Seq<char>, blocks: Seq<JsonView>) -> JsonView {
    JsonView::Object(seq![("content"@, JsonView::Array(blocks)), ("role"@, JsonView::Str(role))])
}

/// The conversion of messages: the system prompt (the text of the last
/// system message that has one) and the API messages, tool results being
/// sent as user messages.
pub open spec fn converted(ms: Seq<MessageView>, texts: Seq<Seq<Seq<char>>>) -> (
    Option<Seq<char>>,
    Seq<JsonView>,
)
    decreases ms.len(),
{
    if ms.len() == 0 {
        (None, Seq::empty())
    } else {
        let prev = converted(ms.drop_last(), texts);
        let m = ms.last();
        let t = texts[ms.len() - 1];
        match m.role {
            Role::System => (
                match first_text(m.content) {
                    Some(s) => Some(s),
                    None => prev.0,
                },
                prev.1,
            ),
            Role::User => (prev.0, prev.1.push(api_message("user"@, blocks_of(Role::User, m.content, t)))),
            Role::Assistant => (
                prev.0,
                prev.1.push(api_message("assistant"@, blocks_of(Role::Assistant, m.content, t))),
            ),
            Role::Tool => (prev.0, prev.1.push(api_message("user"@, blocks_of(Role::Tool, m.content, t)))),
        }
    }
}

/// The embedded values of a prefix are no more than those of the whole.
proof fn lemma_embedded_prefix(parts: Seq<PartView>, i: int)
    requires
        0 <= i <= parts.len(),
    ensures
        embedded_json(parts.subrange(0, i)).len() <= embedded_json(parts).len(),
    decreases parts.len() - i,
{
    crate::openai::lemma_embedded_prefix(parts, i);
}

fn text_block_value(text: &String) -> (r: Json)
    ensures
        r@ == text_block(text@),
{
    let mut o: Vec<(String, Json)> = Vec::new();
    o.push((String::from_str("text"), Json::Str(text.clone())));
    o.push((String::from_str("type"), jstr("text")));
    proof {
        lemma_object_view(o);
        assert(entry_views(o@) =~= text_block(text@)->Object_0);
    }
    Json::Object(o)
}

fn image_block_value(url: &String) -> (r: Json)
    ensures
        r@ == image_block(url@),
{
    let mut s: Vec<(String, Json)> = Vec::new();
    s.push((String::from_str("type"), jstr("url")));
    s.push((String::from_str("url"), Json::Str(url.clone())));
    proof {
        lemma_object_view(s);
    }
    let mut o: Vec<(String, Json)> = Vec::new();
    o.push((String::from_str("source"), Json::Object(s)));
    o.push((String::from_str("type"), jstr("image")));
    proof {
        lemma_object_view(o);
        assert(entry_views(s@) =~= image_block(url@)->Object_0[0].1->Object_0);
        assert(entry_views(o@) =~= image_block(url@)->Object_0);
    }
    Json::Object(o)
}

fn tool_use_value(id: &String, name: &String, input: &Json) -> (r: Json)
    ensures
        r@ == tool_use_block(id@, name@, input@),
{
    let mut o: Vec<(String, Json)> = Vec::new();
    o.push((String::from_str("id"), Json::Str(id.clone())));
    o.push((String::from_str("input"), input.clone()));
    o.push((String::from_str("name"), Json::Str(name.clone())));
    o.push((String::from_str("type"), jstr("tool_use")));
    proof {
        lemma_object_view(o);
        assert(entry_views(o@) =~= tool_use_block(id@, name@, input@)->Object_0);
    }
    Json::Object(o)
}

fn tool_result_value(call_id: &String, content: &String, is_error: bool) -> (r: Json)
    ensures
        r@ == tool_result_block(call_id@, content@, is_error),
{
    let mut o: Vec<(String, Json)> = Vec::new();
    o.push((String::from_str("content"), Json::Str(content.clone())));
    o.push((String::from_str("is_error"), Json::Bool(is_error)));
    o.push((String::from_str("tool_use_id"), Json::Str(call_id.clone())));
    o.push((String::from_str("type"), jstr("tool_result")));
    proof {
        lemma_object_view(o);
        assert(entry_views(o@) =~= tool_result_block(call_id@, content@, is_error)->Object_0);
    }
    Json::Object(o)
}

/// The blocks of a message.
fn message_blocks(m: &Message, texts: &Vec<String>) -> (r: Vec<Json>)
    requires
        texts@.len() == embedded_json(m@.content).len(),
    ensures
        jviews(r@) == blocks_of(m@.role, m@.content, texts@.map_values(|t: String| t@)),
{
    let ghost parts = m@.content;
    let ghost tv = texts@.map_values(|t: String| t@);
    let role = m.role;
    let mut blocks: Vec<Json> = Vec::new();
    let mut k: usize = 0;
    let mut i: usize = 0;
    let tl = texts.len();
    while i < m.content.len()
        invariant
            0 <= i <= m.content@.len(),
            tl == texts@.len(),
            role == m@.role,
            parts == m@.content,
            tv == texts@.map_values(|t: String| t@),
            texts@.len() == embedded_json(parts).len(),
            k == embedded_json(parts.subrange(0, i as int)).len(),
            jviews(blocks@) == blocks_of(role, parts.subrange(0, i as int), tv),
        decreases m.content@.len() - i,
    {
        let ghost w = parts.subrange(0, i + 1);
        assert(w.drop_last() =~= parts.subrange(0, i as int));
        assert(w.last() == parts[i as int]);
        proof {
            lemma_embedded_prefix(parts, i + 1);
        }
        let ghost prev = jviews(blocks@);
        match &m.content[i] {
            ContentPart::Text { text } => {
                match role {
                    Role::User | Role::Assistant => {
                        blocks.push(text_block_value(text));
                        assert(jviews(blocks@) =~= prev.push(text_block(text@)));
                    },
                    _ => {},
                }
            },
            ContentPart::Image { url, .. } => {
                match role {
                    Role::User => {
                        blocks.push(image_block_value(url));
                        assert(jviews(blocks@) =~= prev.push(image_block(url@)));
                    },
                    _ => {},
                }
            },
            ContentPart::ToolCall { id, name, arguments } => {
                assert(embedded_json(w).len() == k + 1);
                match role {
                    Role::Assistant => {
                        blocks.push(tool_use_value(id, name, arguments));
                        assert(jviews(blocks@) =~= prev.push(
                            tool_use_block(id@, name@, arguments@),
                        ));
                    },
                    _ => {},
                }
                k = k + 1;
            },
            ContentPart::ToolResult { call_id, is_error, .. } => {
                assert(embedded_json(w).len() == k + 1);
                match role {
                    Role::Tool => {
                        blocks.push(tool_result_value(call_id, &texts[k], *is_error));
                        assert(jviews(blocks@) =~= prev.push(
                            tool_result_block(call_id@, tv[k as int], *is_error),
                        ));
                    },
                    _ => {},
                }
                k = k + 1;
            },
        }
        i = i + 1;
    }
    assert(parts.subrange(0, parts.len() as int) =~= parts);
    blocks
}

fn api_message_value(role: &str, blocks: Vec<Json>) -> (r: Json)
    ensures
        r@ == api_message(role@, jviews(blocks@)),
{
    proof {
        lemma_array_view(blocks);
    }
    let ghost bv = jviews(blocks@);
    let mut o: Vec<(String, Json)> = Vec::new();
    o.push((String::from_str("content"), Json::Array(blocks)));
    o.push((String::from_str("role"), jstr(role)));
    proof {
        lemma_object_view(o);
    }
    assert(entry_views(o@) =~= api_message(role@, bv)->Object_0);
    Json::Object(o)
}

/// The views of the renderings of each message.
pub open spec fn text_views(texts: Seq<Vec<String>>) -> Seq<Seq<Seq<char>>> {
    texts.map_values(|v: Vec<String>| v@.map_values(|t: String| t@))
}

/// Converts messages to the Anthropic format: the system prompt and the API
/// messages; the JSON values that travel as text are rendered first.
pub fn convert_messages(messages: &Vec<Message>) -> (r: (Option<String>, Vec<Json>))
    ensures
        ({
            let c = converted(messages@.map_values(|m: Message| m@), rendered_texts(messages@));
            &&& match r.0 {
                Some(s) => c.0 == Some(s@),
                None => c.0 is None,
            }
            &&& jviews(r.1@) == c.1
        }),
{
    let texts = embedded_texts(messages);
    assert forall|i: int| 0 <= i < messages@.len() implies (#[trigger] texts@[i])@.len()
        == embedded_json(messages@[i]@.content).len() by {
        assert(texts@[i]@.map_values(|t: String| t@).len() == texts@[i]@.len());
    }
    assert(text_views(texts@) =~= rendered_texts(messages@));
    convert_messages_with(messages, &texts)
}

/// Converts messages to the Anthropic format: the system prompt and the API
/// messages; `texts[i]` holds the renderings of the embedded JSON values of
/// message `i`.
fn convert_messages_with(messages: &Vec<Message>, texts: &Vec<Vec<String>>) -> (r: (
    Option<String>,
    Vec<Json>,
))
    requires
        texts@.len() == messages@.len(),
        forall|i: int|
            0 <= i < messages@.len() ==> (#[trigger] texts@[i])@.len() == embedded_json(
                messages@[i]@.content,
            ).len(),
    ensures
        ({
            let c = converted(messages@.map_values(|m: Message| m@), text_views(texts@));
            &&& match r.0 {
                Some(s) => c.0 == Some(s@),
                None => c.0 is None,
            }
            &&& jviews(r.1@) == c.1
        }),
{
    let ghost mv = messages@.map_values(|m: Message| m@);
    let ghost tv = text_views(texts@);
    let mut system: Option<String> = None;
    let mut out: Vec<Json> = Vec::new();
    let mut i: usize = 0;
    while i < messages.len()
        invariant
            0 <= i <= messages@.len(),
            mv == messages@.map_values(|m: Message| m@),
            tv == text_views(texts@),
            texts@.len() == messages@.len(),
            forall|j: int|
                0 <= j < messages@.len() ==> (#[trigger] texts@[j])@.len() == embedded_json(
                    messages@[j]@.content,
                ).len(),
            ({
                let c = converted(mv.subrange(0, i as int), tv);
                &&& match system {
                    Some(s) => c.0 == Some(s@),
                    None => c.0 is None,
                }
                &&& jviews(out@) == c.1
            }),
        decreases messages@.len() - i,
    {
        let ghost w = mv.subrange(0, i + 1);
        assert(w.drop_last() =~= mv.subrange(0, i as int));
        assert(w.last() == messages@[i as int]@);
        assert(tv[i as int] == texts@[i as int]@.map_values(|t: String| t@));
        let m = &messages[i];
        let ghost prev = jviews(out@);
        match m.role {
            Role::System => {
                match m.text() {
                    Some(t) => {
                        system = Some(String::from_str(t));
                    },
                    None => {},
                }
            },
            Role::User => {
                let blocks = message_blocks(m, &texts[i]);
                out.push(api_message_value("user", blocks));
                assert(jviews(out@) =~= prev.push(out@.last()@));
            },
            Role::Assistant => {
                let blocks = message_blocks(m, &texts[i]);
                out.push(api_message_value("assistant", blocks));
                assert(jviews(out@) =~= prev.push(out@.last()@));
            },
            Role::Tool => {
                let blocks = message_blocks(m, &texts[i]);
                out.push(api_message_value("user", blocks));
                assert(jviews(out@) =~= prev.push(out@.last()@));
            },
        }
        i = i + 1;
    }
    assert(mv.subrange(0, mv.len() as int) =~= mv);
    (system, out)
}

/// A tool definition in the Anthropic format.
pub open spec fn anthropic_tool(d: (Seq<char>, Seq<char>, JsonView)) -> JsonView {
    JsonView::Object(
        seq![
            ("description"@, JsonView::Str(d.1)),
            ("input_schema"@, d.2),
            ("name"@, JsonView::Str(d.0)),
        ],
    )
}

/// Converts tool definitions to the Anthropic format.
pub fn convert_tools(tools: &Vec<ToolDefinition>) -> (r: Vec<Json>)
    ensures
        jviews(r@) == tools@.map_values(|d: ToolDefinition| anthropic_tool(d@)),
{
    let ghost target = tools@.map_values(|d: ToolDefinition| anthropic_tool(d@));
    let mut out: Vec<Json> = Vec::new();
    let mut i: usize = 0;
    while i < tools.len()
        invariant
            0 <= i <= tools@.len(),
            target == tools@.map_values(|d: ToolDefinition| anthropic_tool(d@)),
            jviews(out@) == target.subrange(0, i as int),
        decreases tools@.len() - i,
    {
        let t = &tools[i];
        let mut o: Vec<(String, Json)> = Vec::new();
        o.push((String::from_str("description"), Json::Str(t.description.clone())));
        o.push((String::from_str("input_schema"), t.parameters.clone()));
        o.push((String::from_str("name"), Json::Str(t.name.clone())));
        proof {
            lemma_object_view(o);
            assert(entry_views(o@) =~= anthropic_tool(t@)->Object_0);
        }
        let ghost prev = out@;
        out.push(Json::Object(o));
        assert(jviews(out@) =~= jviews(prev).push(target[i as int]));
        assert(target.subrange(0, i + 1) =~= target.subrange(0, i as int).push(target[i as int]));
        i = i + 1;
    }
    assert(target.subrange(0, tools@.len() as int) =~= target);
    out
}

/// A messages request body: the token limit (4096 unless set), the
/// messages, the model (the streaming flag when streaming) and the
/// temperature; then the system prompt when there is one and the tools
/// when there are any.
pub open spec fn anthropic_body(
    request: CompletionRequest,
    system: Option<Seq<char>>,
    messages: Seq<JsonView>,
    stream: bool,
) -> JsonView {
    let max = match request.max_tokens {
        Some(n) => n,
        None => 4096u32,
    };
    let temperature = JsonView::Number(NumberView::Float(request.temperature@));
    let base = if stream {
        seq![
            ("max_tokens"@, JsonView::Number(NumberView::PosInt(max as u64))),
            ("messages"@, JsonView::Array(messages)),
            ("model"@, JsonView::Str(request.model@)),
            ("stream"@, JsonView::Bool(true)),
            ("temperature"@, temperature),
        ]
    } else {
        seq![
            ("max_tokens"@, JsonView::Number(NumberView::PosInt(max as u64))),
            ("messages"@, JsonView::Array(messages)),
            ("model"@, JsonView::Str(request.model@)),
            ("temperature"@, temperature),
        ]
    };
    let b1 = match system {
        Some(sp) => set_entry(base, "system"@, JsonView::Str(sp)),
        None => base,
    };
    let b2 = if request.tools@.len() > 0 {
        set_entry(
            b1,
            "tools"@,
            JsonView::Array(request.tools@.map_values(|d: ToolDefinition| anthropic_tool(d@))),
        )
    } else {
        b1
    };
    JsonView::Object(b2)
}

/// Builds a messages request body.
pub fn request_body(request: &CompletionRequest, stream: bool) -> (r: Json)
    ensures
        ({
            let c = converted(
                request.messages@.map_values(|m: Message| m@),
                rendered_texts(request.messages@),
            );
            r@ == anthropic_body(*request, c.0, c.1, stream)
        }),
{
    let (system, msgs) = convert_messages(&request.messages);
    let ghost c = converted(
        request.messages@.map_values(|m: Message| m@),
        rendered_texts(request.messages@),
    );
    proof {
        lemma_array_view(msgs);
    }
    let max: u32 = match request.max_tokens {
        Some(n) => n,
        None => 4096,
    };
    let mut o: Vec<(String, Json)> = Vec::new();
    o.push((String::from_str("max_tokens"), Json::Number(JsonNumber::PosInt(max as u64))));
    o.push((String::from_str("messages"), Json::Array(msgs)));
    o.push((String::from_str("model"), Json::Str(request.model.clone())));
    if stream {
        o.push((String::from_str("stream"), Json::Bool(true)));
    }
    o.push(
        (String::from_str("temperature"), Json::Number(JsonNumber::Float(request.temperature.clone()))),
    );
    proof {
        lemma_object_view(o);
    }
    let ghost temperature = JsonView::Number(NumberView::Float(request.temperature@));
    let ghost base = if stream {
        seq![
            ("max_tokens"@, JsonView::Number(NumberView::PosInt(max as u64))),
            ("messages"@, JsonView::Array(c.1)),
            ("model"@, JsonView::Str(request.model@)),
            ("stream"@, JsonView::Bool(true)),
            ("temperature"@, temperature),
        ]
    } else {
        seq![
            ("max_tokens"@, JsonView::Number(NumberView::PosInt(max as u64))),
            ("messages"@, JsonView::Array(c.1)),
            ("model"@, JsonView::Str(request.model@)),
            ("temperature"@, temperature),
        ]
    };
    assert(entry_views(o@) =~= base);
    let mut body = Json::Object(o);
    match system {
        Some(sp) => {
            body.set("system", Json::Str(sp));
        },
        None => {},
    }
    if request.tools.len() > 0 {
        let tools = convert_tools(&request.tools);
        proof {
            lemma_array_view(tools);
        }
        body.set("tools", Json::Array(tools));
    }
    body
}

/// The finish reason an Anthropic stop reason stands for; unknown reasons
/// mean a stop.
pub open spec fn stop_reason_named(s: Seq<char>) -> FinishReason {
    if s == "tool_use"@ {
        FinishReason::ToolCalls
    } else if s == "max_tokens"@ {
        FinishReason::Length
    } else {
        FinishReason::Stop
    }
}

/// Reads a stop reason.
pub fn stop_reason_of(s: &str) -> (r: FinishReason)
    ensures
        r == stop_reason_named(s@),
{
    if text_eq(s, "tool_use") {
        FinishReason::ToolCalls
    } else if text_eq(s, "max_tokens") {
        FinishReason::Length
    } else {
        FinishReason::Stop
    }
}

/// A count as a 64-bit value, 0 when missing.
pub open spec fn count64(j: Option<JsonView>) -> u64 {
    match u64_of(j) {
        Some(n) => n,
        None => 0,
    }
}

/// The usage of an Anthropic usage object: input and output tokens, and
/// their sum truncated to 32 bits.
pub open spec fn anthropic_usage(u: JsonView) -> Usage {
    Usage {
        prompt_tokens: count_of(field(u, "input_tokens"@)),
        completion_tokens: count_of(field(u, "output_tokens"@)),
        total_tokens: (count64(field(u, "input_tokens"@)) + count64(field(u, "output_tokens"@))) as u32,
        cache_creation_input_tokens: 0,
        cache_read_input_tokens: 0,
    }
}

fn count64_at(j: Option<&Json>) -> (r: u64)
    ensures
        r == count64(opt_jview(j)),
{
    match j {
        Some(x) => match x.as_u64() {
            Some(n) => n,
            None => 0,
        },
        None => 0,
    }
}

/// Wrapping a 64-bit sum keeps its low 32 bits.
proof fn lemma_sum_low_bits(a: u64, b: u64)
    by (bit_vector)
    ensures
        (if a + b > 0xffff_ffff_ffff_ffff {
            (a + b - 0x1_0000_0000_0000_0000) as u64
        } else {
            (a + b) as u64
        }) as u32 == (a + b) as u32,
{
}

/// Reads an Anthropic usage object.
pub fn usage_of(u: &Json) -> (r: Usage)
    ensures
        r == anthropic_usage(u@),
{
    let input = count64_at(u.get("input_tokens"));
    let output = count64_at(u.get("output_tokens"));
    let sum = input.wrapping_add(output);
    proof {
        lemma_sum_low_bits(input, output);
    }
    Usage {
        prompt_tokens: count_at(u.get("input_tokens")),
        completion_tokens: count_at(u.get("output_tokens")),
        total_tokens: sum as u32,
        cache_creation_input_tokens: 0,
        cache_read_input_tokens: 0,
    }
}

/// The content parts of response blocks: text blocks with text, and tool
/// uses (with an empty object when the input is missing); other blocks are
/// skipped.
pub open spec fn response_parts(blocks: Seq<JsonView>) -> Seq<PartView>
    decreases blocks.len(),
{
    if blocks.len() == 0 {
        Seq::empty()
    } else {
        let prev = response_parts(blocks.drop_last());
        let b = blocks.last();
        let kind = str_or(field(b, "type"@), Seq::empty());
        if kind == "text"@ {
            match str_of(field(b, "text"@)) {
                Some(t) => prev.push(PartView::Text { text: t }),
                None => prev,
            }
        } else if kind == "tool_use"@ {
            prev.push(
                PartView::ToolCall {
                    id: str_or(field(b, "id"@), Seq::empty()),
                    name: str_or(field(b, "name"@), Seq::empty()),
                    arguments: match field(b, "input"@) {
                        Some(i) => i,
                        None => JsonView::Object(Seq::empty()),
                    },
                },
            )
        } else {
            prev
        }
    }
}

/// A text of a value, or empty.
fn text_or_empty(j: Option<&Json>) -> (r: String)
    ensures
        r@ == str_or(opt_jview(j), Seq::empty()),
{
    match j {
        Some(v) => match v.as_str() {
            Some(s) => String::from_str(s),
            None => String::new(),
        },
        None => String::new(),
    }
}

/// The part of one response block, if it yields one.
fn block_part(b: &Json) -> (r: Option<ContentPart>)
    ensures
        ({
            let kind = str_or(field(b@, "type"@), Seq::empty());
            if kind == "text"@ {
                match str_of(field(b@, "text"@)) {
                    Some(t) => r matches Some(p) && p@ == PartView::Text { text: t },
                    None => r is None,
                }
            } else if kind == "tool_use"@ {
                r matches Some(p) && p@ == PartView::ToolCall {
                    id: str_or(field(b@, "id"@), Seq::empty()),
                    name: str_or(field(b@, "name"@), Seq::empty()),
                    arguments: match field(b@, "input"@) {
                        Some(i) => i,
                        None => JsonView::Object(Seq::empty()),
                    },
                }
            } else {
                r is None
            }
        }),
{
    let kind = text_or_empty(b.get("type"));
    if text_eq(kind.as_str(), "text") {
        match b.get("text") {
            Some(t) => match t.as_str() {
                Some(text) => Some(ContentPart::Text { text: String::from_str(text) }),
                None => None,
            },
            None => None,
        }
    } else if text_eq(kind.as_str(), "tool_use") {
        let id = text_or_empty(b.get("id"));
        let name = text_or_empty(b.get("name"));
        let arguments = match b.get("input") {
            Some(i) => i.clone(),
            None => empty_object(),
        };
        Some(ContentPart::ToolCall { id, name, arguments })
    } else {
        None
    }
}

/// The content parts of the response blocks.
fn parts_of_blocks(blocks: &Vec<Json>) -> (r: Vec<ContentPart>)
    ensures
        r@.map_values(|p: ContentPart| p@) == response_parts(jviews(blocks@)),
{
    let ghost bv = jviews(blocks@);
    let mut out: Vec<ContentPart> = Vec::new();
    let mut i: usize = 0;
    while i < blocks.len()
        invariant
            0 <= i <= blocks@.len(),
            bv == jviews(blocks@),
            out@.map_values(|p: ContentPart| p@) == response_parts(bv.subrange(0, i as int)),
        decreases blocks@.len() - i,
    {
        let ghost w = bv.subrange(0, i + 1);
        assert(w.drop_last() =~= bv.subrange(0, i as int));
        assert(w.last() == blocks@[i as int]@);
        let ghost prev = out@.map_values(|p: ContentPart| p@);
        match block_part(&blocks[i]) {
            Some(p) => {
                out.push(p);
                assert(out@.map_values(|p: ContentPart| p@) =~= prev.push(out@.last()@));
            },
            None => {},
        }
        i = i + 1;
    }
    assert(bv.subrange(0, bv.len() as int) =~= bv);
    out
}

/// What reading a messages response body gives; the response keeps the
/// requested `model`, and the message keeps the response's id.
pub open spec fn anthropic_outcome(
    status: u16,
    body: JsonView,
    model: Seq<char>,
    r: Result<CompletionResponse, ProviderError>,
) -> bool {
    &&& (status == 429 ==> (r matches Err(ProviderError::RateLimited { retry_after_ms })
        && retry_after_ms == 1000))
    &&& (status == 401 ==> (r matches Err(ProviderError::AuthenticationFailed(m)) && m@
        == "Invalid API key"@))
    &&& (status != 429 && status != 401 && status >= 400 ==> (r matches Err(
        ProviderError::Api { status: s, message },
    ) && s == status && message@ == api_error_message(body)))
    &&& (status < 400 ==> (r matches Ok(resp) && {
        &&& resp.message@.id == str_or(field(body, "id"@), Seq::empty())
        &&& resp.message@.role == Role::Assistant
        &&& resp.message@.content == response_parts(
            match array_of(field(body, "content"@)) {
                Some(a) => a,
                None => Seq::empty(),
            },
        )
        &&& resp.message@.metadata.len() == 0
        &&& resp.finish_reason == match str_of(field(body, "stop_reason"@)) {
            Some(s) => Some(stop_reason_named(s)),
            None => None,
        }
        &&& resp.usage == match field(body, "usage"@) {
            Some(u) => Some(anthropic_usage(u)),
            None => None,
        }
        &&& resp.model@ == model
    }))
}

/// Reads a messages response; the response keeps the requested `model`,
/// and the message keeps the response's id.
#[verifier::spinoff_prover]
pub fn interpret_response(status: u16, body: &Json, model: &str) -> (r: Result<
    CompletionResponse,
    ProviderError,
>)
    ensures
        anthropic_outcome(status, body@, model@, r),
{
    match status_error(status) {
        Some(e) => {
            return Err(e);
        },
        None => {},
    }
    if status >= 400 {
        return Err(api_error(status, body));
    }
    let blocks = match body.get("content") {
        Some(c) => c.as_array(),
        None => None,
    };
    let parts: Vec<ContentPart> = match blocks {
        Some(b) => parts_of_blocks(b),
        None => {
            let v: Vec<ContentPart> = Vec::new();
            assert(v@.map_values(|p: ContentPart| p@) =~= response_parts(Seq::empty()));
            v
        },
    };
    let finish_reason = match body.get("stop_reason") {
        Some(s) => match s.as_str() {
            Some(name) => Some(stop_reason_of(name)),
            None => None,
        },
        None => None,
    };
    let usage = match body.get("usage") {
        Some(u) => Some(usage_of(u)),
        None => None,
    };
    let message = Message {
        id: text_or_empty(body.get("id")),
        role: Role::Assistant,
        content: parts,
        metadata: Vec::new(),
        timestamp: now(),
    };
    assert(message@.metadata =~= Seq::empty());
    Ok(CompletionResponse { message, usage, finish_reason, model: String::from_str(model) })
}

/// Reads the reply to a messages request from its status and body text. A
/// rate limit or a rejected key fails before the text is read; a text that
/// is not JSON fails as a body that could not be decoded.
pub fn read_anthropic_reply(status: u16, text: &str, model: &str) -> (r: Result<
    CompletionResponse,
    ProviderError,
>)
    ensures
        status == 429 ==> (r matches Err(ProviderError::RateLimited { retry_after_ms })
            && retry_after_ms == 1000),
        status == 401 ==> (r matches Err(ProviderError::AuthenticationFailed(m)) && m@
            == "Invalid API key"@),
        status != 429 && status != 401 ==> match parsed_json(text@) {
            None => r matches Err(ProviderError::InvalidResponse(m)) && m@
                == "error decoding response body"@,
            Some(body) => anthropic_outcome(status, body, model@, r),
        },
{
    match status_error(status) {
        Some(e) => {
            return Err(e);
        },
        None => {},
    }
    match parse_json(text) {
        Ok(reply) => interpret_response(status, &reply, model),
        Err(_) => Err(ProviderError::InvalidResponse(String::from_str("error decoding response body"))),
    }
}

} // verus!
