//! The OpenAI chat-completions wire format: request bodies, responses,
//! streamed chunks and embeddings.
//!
//! The HTTP exchange happens outside; this module shapes what is sent and
//! reads what comes back, from the body text on.

use vstd::prelude::*;
use crate::cache::{inject_cache_breakpoints, injectable, injected, CacheStrategy};
use crate::json::{
    array_of, element, entry_views, field, field_of, jstr, jviews, lemma_array_view,
    lemma_object_view, set_entry, str_of, u64_of, Json, JsonNumber, JsonView, NumberView,
};
use crate::message::{MessageView, Message, ContentPart, PartView, Role};
use crate::provider::{CompletionRequest, EmbeddingData, EmbeddingRequest, EmbeddingResponse, EmbeddingUsage, ProviderCapabilities, ToolDefinition};
use crate::wire::{
    api_error, api_error_message, count_at, count_of, embedded_json, embedded_texts, join, join_texts,
    rendered_texts, status_error,
};
use crate::text::text_eq;
use crate::message::{fresh_message_id, is_uuid_v4_text, now};
use crate::provider::{event_views, CompletionResponse, FinishReason, StreamEvent, StreamEventView, Usage};
use crate::error::ProviderError;
use crate::json::opt_jview;
use crate::codec::{parse_error_text, parse_json, parsed_json};
use crate::sse_assembly::{reassemble_sse_response, reassembled};
use crate::wire::{data_payload, parse_failure, prefix_chars, sse_data};

verus! {

/// Configuration of the OpenAI provider.
#[derive(Debug)]
pub struct OpenAIProvider {
    api_key: String,
    base_url: String,
    organization: Option<String>,
    extra_headers: Vec<(String, String)>,
    cache_strategy: CacheStrategy,
}

impl OpenAIProvider {
    /// The API key.
    pub closed spec fn spec_api_key(&self) -> Seq<char> {
        self.api_key@
    }

    /// The base URL.
    pub closed spec fn spec_base_url(&self) -> Seq<char> {
        self.base_url@
    }

    /// The organization id.
    pub closed spec fn spec_organization(&self) -> Option<Seq<char>> {
        match self.organization {
            Some(o) => Some(o@),
            None => None,
        }
    }

    /// The extra headers, in order.
    pub closed spec fn spec_extra_headers(&self) -> Seq<(Seq<char>, Seq<char>)> {
        self.extra_headers@.map_values(|h: (String, String)| (h.0@, h.1@))
    }

    /// The cache strategy.
    pub closed spec fn spec_cache_strategy(&self) -> CacheStrategy {
        self.cache_strategy
    }

    /// A provider with `api_key`, the public endpoint, no organization, no
    /// extra header and no cache breakpoints.
    pub fn new(api_key: &str) -> (r: OpenAIProvider)
        ensures
            r.spec_api_key() == api_key@,
            r.spec_base_url() == "https://api.openai.com/v1"@,
            r.spec_organization() is None,
            r.spec_extra_headers().len() == 0,
            r.spec_cache_strategy() == CacheStrategy::NoCache,
    {
        let r = OpenAIProvider {
            api_key: String::from_str(api_key),
            base_url: String::from_str("https://api.openai.com/v1"),
            organization: None,
            extra_headers: Vec::new(),
            cache_strategy: CacheStrategy::NoCache,
        };
        assert(r.spec_extra_headers() =~= Seq::empty());
        r
    }

    /// Sets the base URL (for Azure OpenAI, proxies, ...).
    pub fn with_base_url(self, url: &str) -> (r: OpenAIProvider)
        ensures
            r.spec_base_url() == url@,
            r.spec_api_key() == self.spec_api_key(),
            r.spec_organization() == self.spec_organization(),
            r.spec_extra_headers() == self.spec_extra_headers(),
            r.spec_cache_strategy() == self.spec_cache_strategy(),
    {
        let mut p = self;
        p.base_url = String::from_str(url);
        p
    }

    /// Sets the organization id.
    pub fn with_organization(self, org: &str) -> (r: OpenAIProvider)
        ensures
            r.spec_organization() == Some(org@),
            r.spec_api_key() == self.spec_api_key(),
            r.spec_base_url() == self.spec_base_url(),
            r.spec_extra_headers() == self.spec_extra_headers(),
            r.spec_cache_strategy() == self.spec_cache_strategy(),
    {
        let mut p = self;
        p.organization = Some(String::from_str(org));
        p
    }

    /// Sets the extra headers sent with every request.
    pub fn with_extra_headers(self, headers: Vec<(String, String)>) -> (r: OpenAIProvider)
        ensures
            r.spec_extra_headers() == headers@.map_values(|h: (String, String)| (h.0@, h.1@)),
            r.spec_api_key() == self.spec_api_key(),
            r.spec_base_url() == self.spec_base_url(),
            r.spec_organization() == self.spec_organization(),
            r.spec_cache_strategy() == self.spec_cache_strategy(),
    {
        let mut p = self;
        p.extra_headers = headers;
        p
    }

    /// Sets the cache strategy.
    pub fn with_cache_strategy(self, strategy: CacheStrategy) -> (r: OpenAIProvider)
        ensures
            r.spec_cache_strategy() == strategy,
            r.spec_api_key() == self.spec_api_key(),
            r.spec_base_url() == self.spec_base_url(),
            r.spec_organization() == self.spec_organization(),
            r.spec_extra_headers() == self.spec_extra_headers(),
    {
        let mut p = self;
        p.cache_strategy = strategy;
        p
    }

    /// The provider's name.
    pub fn name(&self) -> (r: &'static str)
        ensures
            r@ == "openai"@,
    {
        "openai"
    }

    /// Everything: streaming, tool calling, vision, embeddings and
    /// structured output.
    pub fn capabilities(&self) -> (r: ProviderCapabilities)
        ensures
            r.streaming && r.tool_calling && r.vision && r.embeddings && r.structured_output,
    {
        ProviderCapabilities {
            streaming: true,
            tool_calling: true,
            vision: true,
            embeddings: true,
            structured_output: true,
        }
    }

    /// The URL of an endpoint: the base URL followed by `path`.
    pub fn endpoint(&self, path: &str) -> (r: String)
        ensures
            r@ == self.spec_base_url() + path@,
    {
        self.base_url.clone().concat(path)
    }

    /// The headers of every request: the bearer key, the JSON content type,
    /// the organization when set, then the extra headers.
    pub fn headers(&self) -> (r: Vec<(String, String)>)
        ensures
            r@.map_values(|h: (String, String)| (h.0@, h.1@)) == seq![
                ("Authorization"@, "Bearer "@ + self.spec_api_key()),
                ("Content-Type"@, "application/json"@),
            ] + match self.spec_organization() {
                Some(o) => seq![("OpenAI-Organization"@, o)],
                None => Seq::empty(),
            } + self.spec_extra_headers(),
    {
        let mut out: Vec<(String, String)> = Vec::new();
        out.push(
            (String::from_str("Authorization"), String::from_str("Bearer ").concat(self.api_key.as_str())),
        );
        out.push((String::from_str("Content-Type"), String::from_str("application/json")));
        match &self.organization {
            Some(o) => {
                out.push((String::from_str("OpenAI-Organization"), o.clone()));
            },
            None => {},
        }
        let ghost base = out@.map_values(|h: (String, String)| (h.0@, h.1@));
        let ghost extra = self.spec_extra_headers();
        let mut i: usize = 0;
        while i < self.extra_headers.len()
            invariant
                0 <= i <= self.extra_headers@.len(),
                extra == self.extra_headers@.map_values(|h: (String, String)| (h.0@, h.1@)),
                out@.map_values(|h: (String, String)| (h.0@, h.1@)) == base + extra.subrange(
                    0,
                    i as int,
                ),
            decreases self.extra_headers@.len() - i,
        {
            let ghost prev = out@.map_values(|h: (String, String)| (h.0@, h.1@));
            out.push((self.extra_headers[i].0.clone(), self.extra_headers[i].1.clone()));
            assert(out@.map_values(|h: (String, String)| (h.0@, h.1@)) =~= prev.push(extra[i as int]));
            assert(extra.subrange(0, i + 1) =~= extra.subrange(0, i as int).push(extra[i as int]));
            i = i + 1;
        }
        assert(extra.subrange(0, extra.len() as int) =~= extra);
        assert(base =~= seq![
            ("Authorization"@, "Bearer "@ + self.spec_api_key()),
            ("Content-Type"@, "application/json"@),
        ] + match self.spec_organization() {
            Some(o) => seq![("OpenAI-Organization"@, o)],
            None => Seq::empty(),
        });
        out
    }
}

/// The OpenAI name of a role.
pub open spec fn role_name(r: Role) -> Seq<char> {
    match r {
        Role::System => "system"@,
        Role::User => "user"@,
        Role::Assistant => "assistant"@,
        Role::Tool => "tool"@,
    }
}

fn role_text(r: Role) -> (t: &'static str)
    ensures
        t@ == role_name(r),
{
    match r {
        Role::System => "system",
        Role::User => "user",
        Role::Assistant => "assistant",
        Role::Tool => "tool",
    }
}

/// A tool definition in the OpenAI format.
pub open spec fn tool_json(d: (Seq<char>, Seq<char>, JsonView)) -> JsonView {
    JsonView::Object(
        seq![
            (
                "function"@,
                JsonView::Object(
                    seq![
                        ("description"@, JsonView::Str(d.1)),
                        ("name"@, JsonView::Str(d.0)),
                        ("parameters"@, d.2),
                    ],
                ),
            ),
            ("type"@, JsonView::Str("function"@)),
        ],
    )
}

/// Converts tool definitions to the OpenAI format.
pub fn convert_tools(tools: &Vec<ToolDefinition>) -> (r: Vec<Json>)
    ensures
        jviews(r@) == tools@.map_values(|d: ToolDefinition| tool_json(d@)),
{
    let ghost target = tools@.map_values(|d: ToolDefinition| tool_json(d@));
    let mut out: Vec<Json> = Vec::new();
    let mut i: usize = 0;
    while i < tools.len()
        invariant
            0 <= i <= tools@.len(),
            target == tools@.map_values(|d: ToolDefinition| tool_json(d@)),
            jviews(out@) == target.subrange(0, i as int),
        decreases tools@.len() - i,
    {
        let t = &tools[i];
        let mut f: Vec<(String, Json)> = Vec::new();
        f.push((String::from_str("description"), Json::Str(t.description.clone())));
        f.push((String::from_str("name"), Json::Str(t.name.clone())));
        f.push((String::from_str("parameters"), t.parameters.clone()));
        let mut o: Vec<(String, Json)> = Vec::new();
        proof {
            lemma_object_view(f);
        }
        o.push((String::from_str("function"), Json::Object(f)));
        o.push((String::from_str("type"), jstr("function")));
        proof {
            lemma_object_view(o);
            assert(entry_views(f@) =~= tool_json(t@)->Object_0[0].1->Object_0);
            assert(entry_views(o@) =~= tool_json(t@)->Object_0);
        }
        let ghost prev = out@;
        out.push(Json::Object(o));
        assert(jviews(out@) =~= jviews(prev).push(target[i as int]));
        assert(target.subrange(0, i + 1) =~= target.subrange(0, i as int).push(target[i as int]));
        i = i + 1;
    }
    assert(target.subrange(0, tools@.len() as int) =~= target);
    out
}

/// A tool call in the OpenAI format, with its arguments as text.
pub open spec fn tool_call_json(id: Seq<char>, name: Seq<char>, arguments: Seq<char>) -> JsonView {
    JsonView::Object(
        seq![
            (
                "function"@,
                JsonView::Object(
                    seq![
                        ("arguments"@, JsonView::Str(arguments)),
                        ("name"@, JsonView::Str(name)),
                    ],
                ),
            ),
            ("id"@, JsonView::Str(id)),
            ("type"@, JsonView::Str("function"@)),
        ],
    )
}

/// What the parts of a message contribute to its OpenAI form: text
/// pieces, tool calls and the id of the call a result answers. `texts`
/// holds the renderings of the message's embedded JSON values.
pub open spec fn fold_parts(parts: Seq<PartView>, texts: Seq<Seq<char>>) -> (
    Seq<Seq<char>>,
    Seq<JsonView>,
    Option<Seq<char>>,
)
    decreases parts.len(),
{
    if parts.len() == 0 {
        (Seq::empty(), Seq::empty(), None)
    } else {
        let prev = fold_parts(parts.drop_last(), texts);
        let k = embedded_json(parts.drop_last()).len() as int;
        match parts.last() {
            PartView::Text { text } => (prev.0.push(text), prev.1, prev.2),
            PartView::ToolCall { id, name, .. } => (
                prev.0,
                prev.1.push(tool_call_json(id, name, texts[k])),
                prev.2,
            ),
            PartView::ToolResult { call_id, .. } => (prev.0.push(texts[k]), prev.1, Some(call_id)),
            PartView::Image { url, .. } => (prev.0.push("[Image: "@ + url + "]"@), prev.1, prev.2),
        }
    }
}

/// A message in the OpenAI format: its role; its text pieces joined by
/// newlines as content, when there are any; its tool calls; and the id of
/// the call it answers, if any.
pub open spec fn openai_message(m: MessageView, texts: Seq<Seq<char>>) -> JsonView {
    let f = fold_parts(m.content, texts);
    let o1 = seq![("role"@, JsonView::Str(role_name(m.role)))];
    let o2 = if f.0.len() > 0 {
        set_entry(o1, "content"@, JsonView::Str(join(f.0, "\n"@)))
    } else {
        o1
    };
    let o3 = if f.1.len() > 0 {
        set_entry(o2, "tool_calls"@, JsonView::Array(f.1))
    } else {
        o2
    };
    let o4 = match f.2 {
        Some(id) => set_entry(o3, "tool_call_id"@, JsonView::Str(id)),
        None => o3,
    };
    JsonView::Object(o4)
}

/// The embedded values of a prefix are no more than those of the whole.
pub proof fn lemma_embedded_prefix(parts: Seq<PartView>, i: int)
    requires
        0 <= i <= parts.len(),
    ensures
        embedded_json(parts.subrange(0, i)).len() <= embedded_json(parts).len(),
    decreases parts.len() - i,
{
    if i < parts.len() {
        lemma_embedded_prefix(parts, i + 1);
        let w = parts.subrange(0, i + 1);
        assert(w.drop_last() =~= parts.subrange(0, i));
    } else {
        assert(parts.subrange(0, i) =~= parts);
    }
}

/// A tool call object with its arguments as text.
pub(crate) fn call_object(id: &String, name: &String, arguments: &String) -> (r: Json)
    ensures
        r@ == tool_call_json(id@, name@, arguments@),
{
    let mut f: Vec<(String, Json)> = Vec::new();
    f.push((String::from_str("arguments"), Json::Str(arguments.clone())));
    f.push((String::from_str("name"), Json::Str(name.clone())));
    proof {
        lemma_object_view(f);
    }
    let mut o: Vec<(String, Json)> = Vec::new();
    o.push((String::from_str("function"), Json::Object(f)));
    o.push((String::from_str("id"), Json::Str(id.clone())));
    o.push((String::from_str("type"), jstr("function")));
    proof {
        lemma_object_view(o);
        assert(entry_views(f@) =~= tool_call_json(id@, name@, arguments@)->Object_0[0].1->Object_0);
        assert(entry_views(o@) =~= tool_call_json(id@, name@, arguments@)->Object_0);
    }
    Json::Object(o)
}

/// Converts a message to the OpenAI format; `texts` holds the renderings
/// of its embedded JSON values, in order.
pub fn convert_message(m: &Message, texts: &Vec<String>) -> (r: Json)
    requires
        texts@.len() == embedded_json(m@.content).len(),
    ensures
        r@ == openai_message(m@, texts@.map_values(|t: String| t@)),
{
    let ghost parts = m@.content;
    let ghost tv = texts@.map_values(|t: String| t@);
    let mut pieces: Vec<String> = Vec::new();
    let mut calls: Vec<Json> = Vec::new();
    let mut call_id: Option<String> = None;
    let mut k: usize = 0;
    let mut i: usize = 0;
    let tl = texts.len();
    while i < m.content.len()
        invariant
            0 <= i <= m.content@.len(),
            tl == texts@.len(),
            parts == m@.content,
            tv == texts@.map_values(|t: String| t@),
            texts@.len() == embedded_json(parts).len(),
            k == embedded_json(parts.subrange(0, i as int)).len(),
            pieces@.map_values(|t: String| t@) == fold_parts(parts.subrange(0, i as int), tv).0,
            jviews(calls@) == fold_parts(parts.subrange(0, i as int), tv).1,
            match call_id {
                Some(c) => fold_parts(parts.subrange(0, i as int), tv).2 == Some(c@),
                None => fold_parts(parts.subrange(0, i as int), tv).2 is None,
            },
        decreases m.content@.len() - i,
    {
        let ghost w = parts.subrange(0, i + 1);
        assert(w.drop_last() =~= parts.subrange(0, i as int));
        proof {
            lemma_embedded_prefix(parts, i + 1);
        }
        let ghost prev_pieces = pieces@.map_values(|t: String| t@);
        let ghost prev_calls = jviews(calls@);
        match &m.content[i] {
            ContentPart::Text { text } => {
                pieces.push(text.clone());
                assert(pieces@.map_values(|t: String| t@) =~= prev_pieces.push(text@));
            },
            ContentPart::ToolCall { id, name, .. } => {
                assert(w.last() == parts[i as int]);
                assert(embedded_json(w).len() == k + 1);
                let c = call_object(id, name, &texts[k]);
                calls.push(c);
                assert(jviews(calls@) =~= prev_calls.push(tool_call_json(id@, name@, tv[k as int])));
                k = k + 1;
            },
            ContentPart::ToolResult { call_id: cid, .. } => {
                assert(w.last() == parts[i as int]);
                assert(embedded_json(w).len() == k + 1);
                pieces.push(texts[k].clone());
                assert(pieces@.map_values(|t: String| t@) =~= prev_pieces.push(tv[k as int]));
                call_id = Some(cid.clone());
                k = k + 1;
            },
            ContentPart::Image { url, .. } => {
                let s = String::from_str("[Image: ").concat(url.as_str()).concat("]");
                pieces.push(s);
                assert(pieces@.map_values(|t: String| t@) =~= prev_pieces.push(
                    "[Image: "@ + url@ + "]"@,
                ));
            },
        }
        i = i + 1;
    }
    assert(parts.subrange(0, parts.len() as int) =~= parts);
    let mut o: Vec<(String, Json)> = Vec::new();
    o.push((String::from_str("role"), jstr(role_text(m.role))));
    proof {
        lemma_object_view(o);
        assert(entry_views(o@) =~= seq![("role"@, JsonView::Str(role_name(m@.role)))]);
    }
    let mut obj = Json::Object(o);
    if pieces.len() > 0 {
        obj.set("content", Json::Str(join_texts(&pieces, "\n")));
    }
    if calls.len() > 0 {
        proof {
            lemma_array_view(calls);
        }
        obj.set("tool_calls", Json::Array(calls));
    }
    match call_id {
        Some(c) => {
            obj.set("tool_call_id", Json::Str(c));
        },
        None => {},
    }
    obj
}

/// Converts messages to the OpenAI format; the JSON values that travel as
/// text are rendered first.
pub fn convert_messages(messages: &Vec<Message>) -> (r: Vec<Json>)
    ensures
        r@.len() == messages@.len(),
        forall|i: int|
            0 <= i < messages@.len() ==> (#[trigger] r@[i])@ == openai_message(
                messages@[i]@,
                rendered_texts(messages@)[i],
            ),
{
    let texts = embedded_texts(messages);
    assert forall|i: int| 0 <= i < messages@.len() implies (#[trigger] texts@[i])@.len()
        == embedded_json(messages@[i]@.content).len() by {
        assert(texts@[i]@.map_values(|t: String| t@).len() == texts@[i]@.len());
    }
    convert_messages_with(messages, &texts)
}

/// Converts messages to the OpenAI format; `texts[i]` holds the renderings
/// of the embedded JSON values of message `i`.
fn convert_messages_with(messages: &Vec<Message>, texts: &Vec<Vec<String>>) -> (r: Vec<Json>)
    requires
        texts@.len() == messages@.len(),
        forall|i: int|
            0 <= i < messages@.len() ==> (#[trigger] texts@[i])@.len() == embedded_json(
                messages@[i]@.content,
            ).len(),
    ensures
        r@.len() == messages@.len(),
        forall|i: int|
            0 <= i < messages@.len() ==> (#[trigger] r@[i])@ == openai_message(
                messages@[i]@,
                texts@[i]@.map_values(|t: String| t@),
            ),
{
    let mut out: Vec<Json> = Vec::new();
    let mut i: usize = 0;
    while i < messages.len()
        invariant
            0 <= i <= messages@.len(),
            texts@.len() == messages@.len(),
            forall|j: int|
                0 <= j < messages@.len() ==> (#[trigger] texts@[j])@.len() == embedded_json(
                    messages@[j]@.content,
                ).len(),
            out@.len() == i,
            forall|j: int|
                0 <= j < i ==> (#[trigger] out@[j])@ == openai_message(
                    messages@[j]@,
                    texts@[j]@.map_values(|t: String| t@),
                ),
        decreases messages@.len() - i,
    {
        out.push(convert_message(&messages[i], &texts[i]));
        i = i + 1;
    }
    out
}

/// The OpenAI forms of the messages of a request.
pub open spec fn openai_messages(ms: Seq<Message>) -> Seq<JsonView> {
    Seq::new(ms.len(), |i: int| openai_message(ms[i]@, rendered_texts(ms)[i]))
}

/// A chat request body before cache breakpoints: messages, model and
/// temperature (with the streaming options when streaming), then the
/// token limit when set, the tools when there are any, and, outside
/// streaming, the stop sequences when there are any.
pub open spec fn chat_body(request: CompletionRequest, messages: Seq<JsonView>, stream: bool) -> JsonView {
    let temperature = JsonView::Number(NumberView::Float(request.temperature@));
    let base = if stream {
        seq![
            ("messages"@, JsonView::Array(messages)),
            ("model"@, JsonView::Str(request.model@)),
            ("stream"@, JsonView::Bool(true)),
            ("stream_options"@, JsonView::Object(seq![("include_usage"@, JsonView::Bool(true))])),
            ("temperature"@, temperature),
        ]
    } else {
        seq![
            ("messages"@, JsonView::Array(messages)),
            ("model"@, JsonView::Str(request.model@)),
            ("temperature"@, temperature),
        ]
    };
    let b1 = match request.max_tokens {
        Some(n) => set_entry(base, "max_tokens"@, JsonView::Number(NumberView::PosInt(n as u64))),
        None => base,
    };
    let b2 = if request.tools@.len() > 0 {
        set_entry(
            b1,
            "tools"@,
            JsonView::Array(request.tools@.map_values(|d: ToolDefinition| tool_json(d@))),
        )
    } else {
        b1
    };
    let b3 = if !stream && request.stop@.len() > 0 {
        set_entry(
            b2,
            "stop"@,
            JsonView::Array(request.stop@.map_values(|s: String| JsonView::Str(s@))),
        )
    } else {
        b2
    };
    JsonView::Object(b3)
}

proof fn lemma_message_content(m: MessageView, texts: Seq<Seq<char>>)
    ensures
        crate::cache::content_taggable(openai_message(m, texts)),
{
    reveal_strlit("content");
    reveal_strlit("role");
    reveal_strlit("tool_calls");
    reveal_strlit("tool_call_id");
    let f = fold_parts(m.content, texts);
    let o1 = seq![("role"@, JsonView::Str(role_name(m.role)))];
    let o2 = if f.0.len() > 0 {
        set_entry(o1, "content"@, JsonView::Str(join(f.0, "\n"@)))
    } else {
        o1
    };
    let o3 = if f.1.len() > 0 {
        set_entry(o2, "tool_calls"@, JsonView::Array(f.1))
    } else {
        o2
    };
    assert(crate::json::keys_of(o1) =~= seq!["role"@]);
    assert("role"@ != "content"@) by {
        assert("role"@.len() != "content"@.len());
    }
    assert(crate::json::entry(o1, "content"@) is None);
    if f.0.len() > 0 {
        crate::json::lemma_set_entry_same(o1, "content"@, JsonView::Str(join(f.0, "\n"@)));
    }
    if f.1.len() > 0 {
        assert("tool_calls"@.len() != "content"@.len());
        crate::json::lemma_set_entry_other(o2, "tool_calls"@, JsonView::Array(f.1), "content"@);
    }
    match f.2 {
        Some(id) => {
            assert("tool_call_id"@.len() != "content"@.len());
            crate::json::lemma_set_entry_other(o3, "tool_call_id"@, JsonView::Str(id), "content"@);
        },
        None => {},
    }
}

proof fn lemma_body_taggable(request: CompletionRequest, messages: Seq<JsonView>, stream: bool)
    requires
        forall|i: int| 0 <= i < messages.len() ==> crate::cache::content_taggable(#[trigger] messages[i]),
    ensures
        crate::cache::messages_taggable(chat_body(request, messages, stream)),
        crate::cache::tools_taggable(chat_body(request, messages, stream)),
{
    reveal_strlit("messages");
    reveal_strlit("model");
    reveal_strlit("stream");
    reveal_strlit("stream_options");
    reveal_strlit("temperature");
    reveal_strlit("max_tokens");
    reveal_strlit("tools");
    reveal_strlit("stop");
    let temperature = JsonView::Number(NumberView::Float(request.temperature@));
    let base = if stream {
        seq![
            ("messages"@, JsonView::Array(messages)),
            ("model"@, JsonView::Str(request.model@)),
            ("stream"@, JsonView::Bool(true)),
            ("stream_options"@, JsonView::Object(seq![("include_usage"@, JsonView::Bool(true))])),
            ("temperature"@, temperature),
        ]
    } else {
        seq![
            ("messages"@, JsonView::Array(messages)),
            ("model"@, JsonView::Str(request.model@)),
            ("temperature"@, temperature),
        ]
    };
    let tools_json = JsonView::Array(request.tools@.map_values(|d: ToolDefinition| tool_json(d@)));
    let b1 = match request.max_tokens {
        Some(n) => set_entry(base, "max_tokens"@, JsonView::Number(NumberView::PosInt(n as u64))),
        None => base,
    };
    let b2 = if request.tools@.len() > 0 {
        set_entry(b1, "tools"@, tools_json)
    } else {
        b1
    };
    let keys = crate::json::keys_of(base);
    assert(keys[0] == "messages"@);
    assert(crate::json::entry(base, "messages"@) == Some(JsonView::Array(messages)));
    assert("tools"@[0] == 't' && "messages"@[0] == 'm' && "model"@[0] == 'm');
    assert("stream"@[0] == 's' && "stream_options"@[0] == 's' && "temperature"@[0] == 't');
    assert("temperature"@.len() != "tools"@.len());
    assert("max_tokens"@[0] == 'm' && "stop"@[0] == 's');
    assert(forall|i: int| 0 <= i < keys.len() ==> keys[i] != "tools"@);
    assert(crate::json::entry(base, "tools"@) is None);
    match request.max_tokens {
        Some(n) => {
            crate::json::lemma_set_entry_other(base, "max_tokens"@, JsonView::Number(NumberView::PosInt(n as u64)), "messages"@);
            crate::json::lemma_set_entry_other(base, "max_tokens"@, JsonView::Number(NumberView::PosInt(n as u64)), "tools"@);
        },
        None => {},
    }
    if request.tools@.len() > 0 {
        crate::json::lemma_set_entry_other(b1, "tools"@, tools_json, "messages"@);
        crate::json::lemma_set_entry_same(b1, "tools"@, tools_json);
        let ts = request.tools@.map_values(|d: ToolDefinition| tool_json(d@));
        assert(ts.last() == tool_json(request.tools@.last()@));
    }
    if !stream && request.stop@.len() > 0 {
        let stops = JsonView::Array(request.stop@.map_values(|s: String| JsonView::Str(s@)));
        crate::json::lemma_set_entry_other(b2, "stop"@, stops, "messages"@);
        crate::json::lemma_set_entry_other(b2, "stop"@, stops, "tools"@);
    }
}

impl OpenAIProvider {
    /// The body of a chat request, with this provider's cache breakpoints.
    #[verifier::spinoff_prover]
    #[verifier::rlimit(40)]
    pub fn request_body(&self, request: &CompletionRequest, stream: bool) -> (r: Json)
        ensures
            r@ == injected(
                chat_body(*request, openai_messages(request.messages@), stream),
                self.spec_cache_strategy(),
            ),
    {
        let msgs = convert_messages(&request.messages);
        let ghost mv = openai_messages(request.messages@);
        assert(jviews(msgs@) =~= mv);
        proof {
            lemma_array_view(msgs);
            assert forall|i: int| 0 <= i < mv.len() implies crate::cache::content_taggable(
                #[trigger] mv[i],
            ) by {
                lemma_message_content(request.messages@[i]@, rendered_texts(request.messages@)[i]);
            }
        }
        let mut o: Vec<(String, Json)> = Vec::new();
        o.push((String::from_str("messages"), Json::Array(msgs)));
        o.push((String::from_str("model"), Json::Str(request.model.clone())));
        if stream {
            let mut so: Vec<(String, Json)> = Vec::new();
            so.push((String::from_str("include_usage"), Json::Bool(true)));
            proof {
                lemma_object_view(so);
                assert(entry_views(so@) =~= seq![("include_usage"@, JsonView::Bool(true))]);
            }
            o.push((String::from_str("stream"), Json::Bool(true)));
            o.push((String::from_str("stream_options"), Json::Object(so)));
        }
        o.push(
            (String::from_str("temperature"), Json::Number(JsonNumber::Float(request.temperature.clone()))),
        );
        proof {
            lemma_object_view(o);
        }
        let ghost temperature = JsonView::Number(NumberView::Float(request.temperature@));
        let ghost base = if stream {
            seq![
                ("messages"@, JsonView::Array(mv)),
                ("model"@, JsonView::Str(request.model@)),
                ("stream"@, JsonView::Bool(true)),
                ("stream_options"@, JsonView::Object(seq![("include_usage"@, JsonView::Bool(true))])),
                ("temperature"@, temperature),
            ]
        } else {
            seq![
                ("messages"@, JsonView::Array(mv)),
                ("model"@, JsonView::Str(request.model@)),
                ("temperature"@, temperature),
            ]
        };
        assert(entry_views(o@) =~= base);
        let mut body = Json::Object(o);
        let ghost target = chat_body(*request, mv, stream);
        match request.max_tokens {
            Some(n) => {
                body.set("max_tokens", Json::Number(JsonNumber::PosInt(n as u64)));
            },
            None => {},
        }
        if request.tools.len() > 0 {
            let tools = convert_tools(&request.tools);
            proof {
                lemma_array_view(tools);
            }
            body.set("tools", Json::Array(tools));
        }
        if !stream && request.stop.len() > 0 {
            let ghost sv = request.stop@.map_values(|s: String| JsonView::Str(s@));
            let mut stops: Vec<Json> = Vec::new();
            let mut i: usize = 0;
            while i < request.stop.len()
                invariant
                    0 <= i <= request.stop@.len(),
                    sv == request.stop@.map_values(|s: String| JsonView::Str(s@)),
                    jviews(stops@) == sv.subrange(0, i as int),
                decreases request.stop@.len() - i,
            {
                let ghost prev = stops@;
                stops.push(Json::Str(request.stop[i].clone()));
                assert(jviews(stops@) =~= jviews(prev).push(sv[i as int]));
                assert(sv.subrange(0, i + 1) =~= sv.subrange(0, i as int).push(sv[i as int]));
                i = i + 1;
            }
            assert(sv.subrange(0, sv.len() as int) =~= sv);
            proof {
                lemma_array_view(stops);
            }
            body.set("stop", Json::Array(stops));
        }
        assert(body@ == target);
        proof {
            lemma_body_taggable(*request, mv, stream);
            crate::cache::lemma_injectable(body@, self.cache_strategy);
        }
        inject_cache_breakpoints(&mut body, self.cache_strategy);
        body
    }

    /// Injects this provider's cache breakpoints into a request body.
    pub fn inject_cache_breakpoints(body: &mut Json, strategy: CacheStrategy)
        requires
            injectable(old(body)@, strategy),
        ensures
            final(body)@ == injected(old(body)@, strategy),
    {
        inject_cache_breakpoints(body, strategy)
    }
}

/// The finish reason an OpenAI name stands for; unknown names mean a stop.
pub open spec fn finish_reason_named(s: Seq<char>) -> FinishReason {
    if s == "tool_calls"@ {
        FinishReason::ToolCalls
    } else if s == "length"@ {
        FinishReason::Length
    } else if s == "content_filter"@ {
        FinishReason::ContentFilter
    } else {
        FinishReason::Stop
    }
}

/// Reads a finish reason.
pub fn finish_reason_of(s: &str) -> (r: FinishReason)
    ensures
        r == finish_reason_named(s@),
{
    if text_eq(s, "tool_calls") {
        FinishReason::ToolCalls
    } else if text_eq(s, "length") {
        FinishReason::Length
    } else if text_eq(s, "content_filter") {
        FinishReason::ContentFilter
    } else {
        FinishReason::Stop
    }
}

/// The usage of an OpenAI usage object: prompt, completion and total
/// tokens, and the cached prompt tokens as cache reads.
pub open spec fn openai_usage(u: JsonView) -> Usage {
    Usage {
        prompt_tokens: count_of(field(u, "prompt_tokens"@)),
        completion_tokens: count_of(field(u, "completion_tokens"@)),
        total_tokens: count_of(field(u, "total_tokens"@)),
        cache_creation_input_tokens: 0,
        cache_read_input_tokens: count_of(field_of(field(u, "prompt_tokens_details"@), "cached_tokens"@)),
    }
}

/// Reads an OpenAI usage object.
pub fn usage_of(u: &Json) -> (r: Usage)
    ensures
        r == openai_usage(u@),
{
    let cached = match u.get("prompt_tokens_details") {
        Some(d) => count_at(d.get("cached_tokens")),
        None => 0,
    };
    Usage {
        prompt_tokens: count_at(u.get("prompt_tokens")),
        completion_tokens: count_at(u.get("completion_tokens")),
        total_tokens: count_at(u.get("total_tokens")),
        cache_creation_input_tokens: 0,
        cache_read_input_tokens: cached,
    }
}

/// The first choice of a response body.
pub open spec fn first_choice(body: JsonView) -> Option<JsonView> {
    element(field(body, "choices"@), 0)
}

/// A text of a value, or `default`.
pub open spec fn str_or(j: Option<JsonView>, default: Seq<char>) -> Seq<char> {
    match str_of(j) {
        Some(s) => s,
        None => default,
    }
}

/// The tool calls of a response message.
pub open spec fn response_calls(msg: JsonView) -> Seq<JsonView> {
    match array_of(field(msg, "tool_calls"@)) {
        Some(a) => a,
        None => Seq::empty(),
    }
}

/// The arguments text of a tool call, `"{}"` when missing.
pub open spec fn arguments_text(tc: JsonView) -> Seq<char> {
    str_or(field_of(field(tc, "function"@), "arguments"@), "{}"@)
}

/// A tool call part of the response, with `parsed` the parse of its
/// arguments text (an empty object when that failed).
pub open spec fn call_part(tc: JsonView, parsed: Option<JsonView>) -> PartView {
    PartView::ToolCall {
        id: str_or(field(tc, "id"@), Seq::empty()),
        name: str_or(field_of(field(tc, "function"@), "name"@), Seq::empty()),
        arguments: match parsed {
            Some(v) => v,
            None => JsonView::Object(Seq::empty()),
        },
    }
}

/// The parse of the `k`-th arguments text, if it was given and succeeded.
pub open spec fn parsed_at(parsed: Seq<Option<JsonView>>, k: int) -> Option<JsonView> {
    if 0 <= k < parsed.len() {
        parsed[k]
    } else {
        None
    }
}

/// The parts of a response message: its text, then its tool calls.
pub open spec fn response_parts(msg: JsonView, parsed: Seq<Option<JsonView>>) -> Seq<PartView> {
    let text = match str_of(field(msg, "content"@)) {
        Some(t) => seq![PartView::Text { text: t }],
        None => Seq::empty(),
    };
    let calls = response_calls(msg);
    text + Seq::new(calls.len(), |k: int| call_part(calls[k], parsed_at(parsed, k)))
}

/// The views of optional values.
pub open spec fn opt_views(v: Seq<Option<Json>>) -> Seq<Option<JsonView>> {
    v.map_values(|o: Option<Json>| match o {
        Some(j) => Some(j@),
        None => None,
    })
}

/// The arguments texts of the tool calls of a response's first choice, in
/// order; the caller parses them.
pub fn argument_texts(body: &Json) -> (r: Vec<String>)
    ensures
        match first_choice(body@) {
            Some(c) => match field(c, "message"@) {
                Some(msg) => r@.map_values(|t: String| t@) == response_calls(msg).map_values(
                    |tc: JsonView| arguments_text(tc),
                ),
                None => r@.len() == 0,
            },
            None => r@.len() == 0,
        },
{
    let mut out: Vec<String> = Vec::new();
    let choice = match body.get("choices") {
        Some(c) => c.at(0),
        None => None,
    };
    let msg = match choice {
        Some(c) => c.get("message"),
        None => None,
    };
    match msg {
        Some(m) => {
            let calls = match m.get("tool_calls") {
                Some(t) => t.as_array(),
                None => None,
            };
            match calls {
                Some(tcs) => {
                    let ghost target = jviews(tcs@).map_values(|tc: JsonView| arguments_text(tc));
                    let mut k: usize = 0;
                    while k < tcs.len()
                        invariant
                            0 <= k <= tcs@.len(),
                            target == jviews(tcs@).map_values(|tc: JsonView| arguments_text(tc)),
                            out@.map_values(|t: String| t@) == target.subrange(0, k as int),
                        decreases tcs@.len() - k,
                    {
                        let text: String = match tcs[k].get("function") {
                            Some(f) => match f.get("arguments") {
                                Some(a) => match a.as_str() {
                                    Some(s) => String::from_str(s),
                                    None => String::from_str("{}"),
                                },
                                None => String::from_str("{}"),
                            },
                            None => String::from_str("{}"),
                        };
                        let ghost prev = out@.map_values(|t: String| t@);
                        out.push(text);
                        assert(out@.map_values(|t: String| t@) =~= prev.push(target[k as int]));
                        assert(target.subrange(0, k + 1) =~= target.subrange(0, k as int).push(
                            target[k as int],
                        ));
                        k = k + 1;
                    }
                    assert(target.subrange(0, tcs@.len() as int) =~= target);
                },
                None => {
                    assert(response_calls(m@) =~= Seq::empty());
                    assert(out@.map_values(|t: String| t@) =~= Seq::empty());
                },
            }
        },
        None => {},
    }
    out
}

/// An empty object.
pub fn empty_object() -> (r: Json)
    ensures
        r@ == JsonView::Object(Seq::empty()),
{
    let r = Json::Object(Vec::new());
    assert(r@->Object_0 =~= Seq::<(Seq<char>, JsonView)>::empty());
    r
}

/// A text of a value, or `default`.
fn text_or(j: Option<&Json>, default: &str) -> (r: String)
    ensures
        r@ == str_or(opt_jview(j), default@),
{
    match j {
        Some(v) => match v.as_str() {
            Some(s) => String::from_str(s),
            None => String::from_str(default),
        },
        None => String::from_str(default),
    }
}

/// The tool call part for tool call `k` of a response.
fn response_call_part(tc: &Json, parsed: &Vec<Option<Json>>, k: usize) -> (r: ContentPart)
    ensures
        r@ == call_part(tc@, parsed_at(opt_views(parsed@), k as int)),
{
    proof {
        reveal_strlit("");
    }
    assert(""@ =~= Seq::<char>::empty());
    let id = text_or(tc.get("id"), "");
    let name = match tc.get("function") {
        Some(f) => text_or(f.get("name"), ""),
        None => String::new(),
    };
    let arguments: Json = if k < parsed.len() {
        match &parsed[k] {
            Some(v) => v.clone(),
            None => empty_object(),
        }
    } else {
        empty_object()
    };
    ContentPart::ToolCall { id, name, arguments }
}

/// The content parts of a response message.
fn message_parts(msg: &Json, parsed: &Vec<Option<Json>>) -> (r: Vec<ContentPart>)
    ensures
        r@.map_values(|p: ContentPart| p@) == response_parts(msg@, opt_views(parsed@)),
{
    let ghost pv = opt_views(parsed@);
    let mut parts: Vec<ContentPart> = Vec::new();
    match msg.get("content") {
        Some(t) => match t.as_str() {
            Some(s) => {
                parts.push(ContentPart::Text { text: String::from_str(s) });
            },
            None => {},
        },
        None => {},
    }
    let ghost text_parts = parts@.map_values(|p: ContentPart| p@);
    let calls = match msg.get("tool_calls") {
        Some(t) => t.as_array(),
        None => None,
    };
    let ghost cv = response_calls(msg@);
    let ghost call_parts = Seq::new(cv.len(), |k: int| call_part(cv[k], parsed_at(pv, k)));
    match calls {
        Some(tcs) => {
            let mut k: usize = 0;
            while k < tcs.len()
                invariant
                    0 <= k <= tcs@.len(),
                    cv == jviews(tcs@),
                    pv == opt_views(parsed@),
                    call_parts == Seq::new(cv.len(), |k: int| call_part(cv[k], parsed_at(pv, k))),
                    parts@.map_values(|p: ContentPart| p@) == text_parts + call_parts.subrange(
                        0,
                        k as int,
                    ),
                decreases tcs@.len() - k,
            {
                assert(cv[k as int] == tcs@[k as int]@);
                let part = response_call_part(&tcs[k], parsed, k);
                let ghost prev = parts@.map_values(|p: ContentPart| p@);
                parts.push(part);
                assert(parts@.map_values(|p: ContentPart| p@) =~= prev.push(call_parts[k as int]));
                assert(call_parts.subrange(0, k + 1) =~= call_parts.subrange(0, k as int).push(
                    call_parts[k as int],
                ));
                k = k + 1;
            }
            assert(call_parts.subrange(0, cv.len() as int) =~= call_parts);
        },
        None => {
            assert(call_parts =~= Seq::empty());
            assert(text_parts + call_parts =~= text_parts);
        },
    }
    parts
}

/// What reading a chat response body gives: `parsed[k]` is the parse of
/// the arguments text of tool call `k`, none where it failed.
pub open spec fn chat_outcome(
    status: u16,
    body: JsonView,
    model: Seq<char>,
    parsed: Seq<Option<JsonView>>,
    r: Result<CompletionResponse, ProviderError>,
) -> bool {
    &&& (status == 429 || status == 401 ==> r is Err)
    &&& (status == 429 ==> (r matches Err(ProviderError::RateLimited { retry_after_ms })
        && retry_after_ms == 1000))
    &&& (status == 401 ==> (r matches Err(ProviderError::AuthenticationFailed(m)) && m@
        == "Invalid API key"@))
    &&& (status != 429 && status != 401 && status >= 400 ==> (r matches Err(
        ProviderError::Api { status: s, message },
    ) && s == status && message@ == api_error_message(body)))
    &&& (status < 400 ==> match first_choice(body) {
        None => r matches Err(ProviderError::InvalidResponse(m)) && m@
            == "No choices in response"@,
        Some(c) => match field(c, "message"@) {
            None => r matches Err(ProviderError::InvalidResponse(m)) && m@
                == "No message in choice"@,
            Some(msg) => r matches Ok(resp) && {
                &&& is_uuid_v4_text(resp.message@.id)
                &&& resp.message@.role == Role::Assistant
                &&& resp.message@.content == response_parts(msg, parsed)
                &&& resp.message@.metadata.len() == 0
                &&& resp.usage == match field(body, "usage"@) {
                    Some(u) => Some(openai_usage(u)),
                    None => None,
                }
                &&& resp.finish_reason == match str_of(field(c, "finish_reason"@)) {
                    Some(f) => Some(finish_reason_named(f)),
                    None => None,
                }
                &&& resp.model@ == model
            },
        },
    })
}

/// Reads a chat response. `parsed[k]` is the parse of the arguments text
/// of tool call `k` (see [`argument_texts`]), none where it failed. The
/// response keeps the requested `model`.
#[verifier::spinoff_prover]
#[verifier::rlimit(40)]
pub fn interpret_chat_response(
    status: u16,
    body: &Json,
    model: &str,
    parsed: &Vec<Option<Json>>,
) -> (r: Result<CompletionResponse, ProviderError>)
    ensures
        chat_outcome(status, body@, model@, opt_views(parsed@), r),
{
    match status_error(status) {
        Some(e) => {
            return Err(e);
        },
        None => {},
    }
    if status >= 400 {
        return Err(api_error(status, body));
    }
    let choice = match body.get("choices") {
        Some(c) => c.at(0),
        None => None,
    };
    let c = match choice {
        Some(c) => c,
        None => {
            return Err(ProviderError::InvalidResponse(String::from_str("No choices in response")));
        },
    };
    let finish_reason = match c.get("finish_reason") {
        Some(f) => match f.as_str() {
            Some(s) => Some(finish_reason_of(s)),
            None => None,
        },
        None => None,
    };
    let msg = match c.get("message") {
        Some(m) => m,
        None => {
            return Err(ProviderError::InvalidResponse(String::from_str("No message in choice")));
        },
    };
    let parts = message_parts(msg, parsed);
    let usage = match body.get("usage") {
        Some(u) => Some(usage_of(u)),
        None => None,
    };
    let message = Message {
        id: fresh_message_id(),
        role: Role::Assistant,
        content: parts,
        metadata: Vec::new(),
        timestamp: now(),
    };
    assert(message@.metadata =~= Seq::empty());
    Ok(CompletionResponse { message, usage, finish_reason, model: String::from_str(model) })
}

/// The body of an embedding request: the input texts and the model, then
/// the encoding format and the dimensions when set.
pub open spec fn embedding_body(request: EmbeddingRequest) -> JsonView {
    let base = seq![
        ("input"@, JsonView::Array(request.input@.map_values(|s: String| JsonView::Str(s@)))),
        ("model"@, JsonView::Str(request.model@)),
    ];
    let b1 = match request.encoding_format {
        Some(f) => set_entry(base, "encoding_format"@, JsonView::Str(f@)),
        None => base,
    };
    let b2 = match request.dimensions {
        Some(d) => set_entry(b1, "dimensions"@, JsonView::Number(NumberView::PosInt(d as u64))),
        None => b1,
    };
    JsonView::Object(b2)
}

/// Builds the body of an embedding request.
pub fn embedding_request_body(request: &EmbeddingRequest) -> (r: Json)
    ensures
        r@ == embedding_body(*request),
{
    let ghost sv = request.input@.map_values(|s: String| JsonView::Str(s@));
    let mut inputs: Vec<Json> = Vec::new();
    let mut i: usize = 0;
    while i < request.input.len()
        invariant
            0 <= i <= request.input@.len(),
            sv == request.input@.map_values(|s: String| JsonView::Str(s@)),
            jviews(inputs@) == sv.subrange(0, i as int),
        decreases request.input@.len() - i,
    {
        let ghost prev = inputs@;
        inputs.push(Json::Str(request.input[i].clone()));
        assert(jviews(inputs@) =~= jviews(prev).push(sv[i as int]));
        assert(sv.subrange(0, i + 1) =~= sv.subrange(0, i as int).push(sv[i as int]));
        i = i + 1;
    }
    assert(sv.subrange(0, sv.len() as int) =~= sv);
    proof {
        lemma_array_view(inputs);
    }
    let mut o: Vec<(String, Json)> = Vec::new();
    o.push((String::from_str("input"), Json::Array(inputs)));
    o.push((String::from_str("model"), Json::Str(request.model.clone())));
    proof {
        lemma_object_view(o);
    }
    assert(entry_views(o@) =~= seq![
        ("input"@, JsonView::Array(sv)),
        ("model"@, JsonView::Str(request.model@)),
    ]);
    let mut body = Json::Object(o);
    match &request.encoding_format {
        Some(f) => {
            body.set("encoding_format", Json::Str(f.clone()));
        },
        None => {},
    }
    match request.dimensions {
        Some(d) => {
            body.set("dimensions", Json::Number(JsonNumber::PosInt(d as u64)));
        },
        None => {},
    }
    body
}

/// An embedding of a response item: its index (0 when missing) and its
/// vector (null when missing).
pub open spec fn embedding_item(item: JsonView) -> (usize, JsonView) {
    (
        match u64_of(field(item, "index"@)) {
            Some(n) => n as usize,
            None => 0,
        },
        match field(item, "embedding"@) {
            Some(e) => e,
            None => JsonView::Null,
        },
    )
}

/// Reads one embedding item.
fn read_embedding_item(item: &Json) -> (r: EmbeddingData)
    ensures
        (r.index, r.embedding@) == embedding_item(item@),
{
    let index: usize = match item.get("index") {
        Some(i) => match i.as_u64() {
            Some(n) => n as usize,
            None => 0,
        },
        None => 0,
    };
    let embedding = match item.get("embedding") {
        Some(e) => e.clone(),
        None => Json::Null,
    };
    EmbeddingData { index, embedding }
}

/// What reading an embedding response body gives; the model defaults to
/// the requested one.
pub open spec fn embedding_outcome(
    status: u16,
    body: JsonView,
    request_model: Seq<char>,
    r: Result<EmbeddingResponse, ProviderError>,
) -> bool {
    &&& (status == 429 ==> (r matches Err(ProviderError::RateLimited { retry_after_ms })
        && retry_after_ms == 1000))
    &&& (status == 401 ==> (r matches Err(ProviderError::AuthenticationFailed(m)) && m@
        == "Invalid API key"@))
    &&& (status != 429 && status != 401 && status >= 400 ==> (r matches Err(
        ProviderError::Api { status: s, message },
    ) && s == status && message@ == api_error_message(body)))
    &&& (status < 400 ==> match array_of(field(body, "data"@)) {
        None => r matches Err(ProviderError::InvalidResponse(m)) && m@ == "No data in response"@,
        Some(items) => r matches Ok(resp) && {
            &&& resp.data@.len() == items.len()
            &&& forall|i: int|
                0 <= i < items.len() ==> ((#[trigger] resp.data@[i]).index, resp.data@[i].embedding@)
                    == embedding_item(items[i])
            &&& resp.model@ == str_or(field(body, "model"@), request_model)
            &&& resp.usage.prompt_tokens == count_of(field_of(field(body, "usage"@), "prompt_tokens"@))
            &&& resp.usage.total_tokens == count_of(field_of(field(body, "usage"@), "total_tokens"@))
        },
    })
}

/// Reads an embedding response; the model defaults to the requested one.
#[verifier::spinoff_prover]
pub fn interpret_embedding_response(status: u16, body: &Json, request_model: &str) -> (r: Result<
    EmbeddingResponse,
    ProviderError,
>)
    ensures
        embedding_outcome(status, body@, request_model@, r),
{
    match status_error(status) {
        Some(e) => {
            return Err(e);
        },
        None => {},
    }
    if status >= 400 {
        return Err(api_error(status, body));
    }
    let items = match body.get("data") {
        Some(d) => d.as_array(),
        None => None,
    };
    let items = match items {
        Some(a) => a,
        None => {
            return Err(ProviderError::InvalidResponse(String::from_str("No data in response")));
        },
    };
    let ghost iv = jviews(items@);
    let mut data: Vec<EmbeddingData> = Vec::new();
    let mut i: usize = 0;
    while i < items.len()
        invariant
            0 <= i <= items@.len(),
            iv == jviews(items@),
            data@.len() == i,
            forall|k: int|
                0 <= k < i ==> ((#[trigger] data@[k]).index, data@[k].embedding@) == embedding_item(
                    iv[k],
                ),
        decreases items@.len() - i,
    {
        data.push(read_embedding_item(&items[i]));
        i = i + 1;
    }
    let model = text_or(body.get("model"), request_model);
    let usage = body.get("usage");
    let (prompt_tokens, total_tokens) = match usage {
        Some(u) => (count_at(u.get("prompt_tokens")), count_at(u.get("total_tokens"))),
        None => (0, 0),
    };
    Ok(EmbeddingResponse { data, model, usage: EmbeddingUsage { prompt_tokens, total_tokens } })
}

/// The error message for a reply text that is not JSON: the parser's
/// message and the first 200 characters of the text.
pub open spec fn unparsable(text: Seq<char>) -> Seq<char> {
    "Failed to parse JSON: "@ + parse_error_text(text) + ". Body starts with: "@ + prefix_chars(
        text,
        200,
    )
}

/// The body of a chat reply text: the text parsed as JSON or, when it is
/// not JSON but begins as an event stream, the stream put together again.
pub open spec fn chat_reply_body(text: Seq<char>) -> Option<JsonView> {
    match parsed_json(text) {
        Some(v) => Some(v),
        None => match data_payload(text) {
            Some(_) => Some(reassembled(text)),
            None => None,
        },
    }
}

/// The parses of the arguments texts of the tool calls of a response's
/// first choice, in order.
pub open spec fn call_arguments(body: JsonView) -> Seq<Option<JsonView>> {
    match first_choice(body) {
        Some(c) => match field(c, "message"@) {
            Some(msg) => response_calls(msg).map_values(
                |tc: JsonView| parsed_json(arguments_text(tc)),
            ),
            None => Seq::empty(),
        },
        None => Seq::empty(),
    }
}

/// Parses each text, none where it is not JSON.
fn parse_each(texts: &Vec<String>) -> (r: Vec<Option<Json>>)
    ensures
        opt_views(r@) == texts@.map_values(|t: String| parsed_json(t@)),
{
    let ghost target = texts@.map_values(|t: String| parsed_json(t@));
    let mut out: Vec<Option<Json>> = Vec::new();
    let mut k: usize = 0;
    while k < texts.len()
        invariant
            0 <= k <= texts@.len(),
            target == texts@.map_values(|t: String| parsed_json(t@)),
            opt_views(out@) == target.subrange(0, k as int),
        decreases texts@.len() - k,
    {
        let v = match parse_json(texts[k].as_str()) {
            Ok(j) => Some(j),
            Err(_) => None,
        };
        let ghost prev = opt_views(out@);
        out.push(v);
        assert(opt_views(out@) =~= prev.push(target[k as int]));
        assert(target.subrange(0, k + 1) =~= target.subrange(0, k as int).push(target[k as int]));
        k = k + 1;
    }
    assert(target.subrange(0, texts@.len() as int) =~= target);
    out
}

/// The parses of the arguments texts of the tool calls of a response's
/// first choice, in order, none where a text is not JSON.
pub fn parsed_arguments(reply: &Json) -> (r: Vec<Option<Json>>)
    ensures
        opt_views(r@) == call_arguments(reply@),
{
    let texts = argument_texts(reply);
    let parsed = parse_each(&texts);
    proof {
        let b = reply@;
        match first_choice(b) {
            Some(c) => match field(c, "message"@) {
                Some(msg) => {
                    let calls = response_calls(msg);
                    let tv = texts@.map_values(|t: String| t@);
                    assert(tv == calls.map_values(|tc: JsonView| arguments_text(tc)));
                    assert(tv.len() == calls.len());
                    assert forall|k: int| 0 <= k < calls.len() implies opt_views(parsed@)[k]
                        == call_arguments(b)[k] by {
                        assert(tv[k] == texts@[k]@);
                        assert(tv[k] == arguments_text(calls[k]));
                    }
                    assert(opt_views(parsed@) =~= call_arguments(b));
                },
                None => {
                    assert(opt_views(parsed@) =~= call_arguments(b));
                },
            },
            None => {
                assert(opt_views(parsed@) =~= call_arguments(b));
            },
        }
    }
    parsed
}

/// Reads the reply to a chat request from its status and body text. A
/// rate limit or a rejected key fails before the text is read; a text that
/// is not JSON fails, unless it is an event stream, which is put together
/// again. The response keeps the requested `model`.
pub fn read_chat_reply(status: u16, text: &str, model: &str) -> (r: Result<
    CompletionResponse,
    ProviderError,
>)
    ensures
        status == 429 ==> (r matches Err(ProviderError::RateLimited { retry_after_ms })
            && retry_after_ms == 1000),
        status == 401 ==> (r matches Err(ProviderError::AuthenticationFailed(m)) && m@
            == "Invalid API key"@),
        status != 429 && status != 401 ==> match chat_reply_body(text@) {
            None => r matches Err(ProviderError::InvalidResponse(m)) && m@ == unparsable(text@),
            Some(body) => chat_outcome(status, body, model@, call_arguments(body), r),
        },
{
    match status_error(status) {
        Some(e) => {
            return Err(e);
        },
        None => {},
    }
    let reply = match parse_json(text) {
        Ok(v) => v,
        Err(e) => {
            if sse_data(text).is_some() {
                reassemble_sse_response(text)
            } else {
                return Err(parse_failure(e.as_str(), text));
            }
        },
    };
    let parsed = parsed_arguments(&reply);
    interpret_chat_response(status, &reply, model, &parsed)
}

/// Reads the reply to an embedding request from its status and body text.
/// A rate limit or a rejected key fails before the text is read, and a
/// text that is not JSON fails; the model defaults to the requested one.
pub fn read_embedding_reply(status: u16, text: &str, request_model: &str) -> (r: Result<
    EmbeddingResponse,
    ProviderError,
>)
    ensures
        status == 429 ==> (r matches Err(ProviderError::RateLimited { retry_after_ms })
            && retry_after_ms == 1000),
        status == 401 ==> (r matches Err(ProviderError::AuthenticationFailed(m)) && m@
            == "Invalid API key"@),
        status != 429 && status != 401 ==> match parsed_json(text@) {
            None => r matches Err(ProviderError::InvalidResponse(m)) && m@ == unparsable(text@),
            Some(body) => embedding_outcome(status, body, request_model@, r),
        },
{
    match status_error(status) {
        Some(e) => {
            return Err(e);
        },
        None => {},
    }
    match parse_json(text) {
        Ok(reply) => interpret_embedding_response(status, &reply, request_model),
        Err(e) => Err(parse_failure(e.as_str(), text)),
    }
}

} // verus!
