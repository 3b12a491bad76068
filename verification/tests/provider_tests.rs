use lortex::anthropic::{self, AnthropicProvider};
use lortex::anthropic_stream::AnthropicStreamDecoder;
use lortex::cache::CacheStrategy;
use lortex::error::ProviderError;
use lortex::json::{Json, JsonNumber};
use lortex::message::{ContentPart, Message, Role, Timestamp};
use lortex::openai::{self, OpenAIProvider};
use lortex::openai_stream::OpenAiStreamDecoder;
use lortex::provider::{CompletionRequest, EmbeddingRequest, FinishReason, StreamEvent, ToolDefinition};
use lortex::sse_assembly::SseAssembler;
use lortex::wire;

fn s(t: &str) -> Json {
    Json::Str(t.to_string())
}

fn n(v: u64) -> Json {
    Json::Number(JsonNumber::PosInt(v))
}

fn o(entries: Vec<(&str, Json)>) -> Json {
    Json::Object(entries.into_iter().map(|(k, v)| (k.to_string(), v)).collect())
}

fn a(items: Vec<Json>) -> Json {
    Json::Array(items)
}

fn at<'a>(v: &'a Json, path: &[&str]) -> &'a Json {
    let mut cur = v;
    for p in path {
        cur = match p.parse::<usize>() {
            Ok(i) => cur.at(i).unwrap(),
            Err(_) => cur.get(p).unwrap(),
        };
    }
    cur
}

fn text_of(v: &Json) -> &str {
    v.as_str().unwrap()
}

fn inject(body: &mut Json, strategy: CacheStrategy) {
    OpenAIProvider::inject_cache_breakpoints(body, strategy);
}

fn same(x: &Json, y: &Json) -> bool {
    match (x, y) {
        (Json::Null, Json::Null) => true,
        (Json::Bool(p), Json::Bool(q)) => p == q,
        (Json::Str(p), Json::Str(q)) => p == q,
        (Json::Number(JsonNumber::PosInt(p)), Json::Number(JsonNumber::PosInt(q))) => p == q,
        (Json::Array(p), Json::Array(q)) => p.len() == q.len() && p.iter().zip(q).all(|(u, v)| same(u, v)),
        (Json::Object(p), Json::Object(q)) => {
            p.len() == q.len() && p.iter().zip(q).all(|(u, v)| u.0 == v.0 && same(&u.1, &v.1))
        }
        _ => false,
    }
}

#[test]
fn cache_strategy_names() {
    assert_eq!(CacheStrategy::from_str("none"), CacheStrategy::NoCache);
    assert_eq!(CacheStrategy::from_str("system_only"), CacheStrategy::SystemOnly);
    assert_eq!(CacheStrategy::from_str("standard"), CacheStrategy::Standard);
    assert_eq!(CacheStrategy::from_str("full"), CacheStrategy::Full);
    assert_eq!(CacheStrategy::from_str("bogus"), CacheStrategy::Full);
    assert_eq!(CacheStrategy::default(), CacheStrategy::Full);
    for c in [CacheStrategy::NoCache, CacheStrategy::SystemOnly, CacheStrategy::Standard, CacheStrategy::Full] {
        assert_eq!(CacheStrategy::from_str(c.as_str()), c);
    }
}

#[test]
fn inject_none_is_noop() {
    let mut body = o(vec![
        ("model", s("gpt-4")),
        ("messages", a(vec![o(vec![("role", s("system")), ("content", s("You are helpful"))]), o(vec![("role", s("user")), ("content", s("Hi"))])])),
        ("tools", a(vec![o(vec![("type", s("function")), ("function", o(vec![("name", s("search"))]))])])),
    ]);
    let original = body.clone();
    inject(&mut body, CacheStrategy::NoCache);
    assert!(same(&body, &original));
}

#[test]
fn inject_system_only_string_content() {
    let mut body = o(vec![(
        "messages",
        a(vec![o(vec![("role", s("system")), ("content", s("You are helpful"))]), o(vec![("role", s("user")), ("content", s("Hi"))])]),
    )]);
    inject(&mut body, CacheStrategy::SystemOnly);
    let sys = at(&body, &["messages", "0", "content"]);
    assert!(sys.as_array().is_some());
    assert_eq!(text_of(at(sys, &["0", "cache_control", "type"])), "ephemeral");
    assert_eq!(text_of(at(sys, &["0", "text"])), "You are helpful");
    assert!(at(&body, &["messages", "1", "content"]).as_str().is_some());
}

#[test]
fn inject_standard_tags_tools() {
    let mut body = o(vec![
        ("messages", a(vec![o(vec![("role", s("system")), ("content", s("sys"))]), o(vec![("role", s("user")), ("content", s("Hi"))])])),
        (
            "tools",
            a(vec![
                o(vec![("type", s("function")), ("function", o(vec![("name", s("a"))]))]),
                o(vec![("type", s("function")), ("function", o(vec![("name", s("b"))]))]),
            ]),
        ),
    ]);
    inject(&mut body, CacheStrategy::Standard);
    assert!(matches!(at(&body, &["messages", "0", "content", "0", "cache_control"]), Json::Object(_)));
    assert!(at(&body, &["tools", "0"]).get("cache_control").is_none());
    assert_eq!(text_of(at(&body, &["tools", "1", "cache_control", "type"])), "ephemeral");
}

#[test]
fn inject_full_tags_penultimate_user_string() {
    let mut body = o(vec![(
        "messages",
        a(vec![
            o(vec![("role", s("system")), ("content", s("sys"))]),
            o(vec![("role", s("user")), ("content", s("Turn 1"))]),
            o(vec![("role", s("assistant")), ("content", s("Reply 1"))]),
            o(vec![("role", s("user")), ("content", s("Turn 2"))]),
        ]),
    )]);
    inject(&mut body, CacheStrategy::Full);
    let turn1 = at(&body, &["messages", "1", "content"]);
    assert!(turn1.as_array().is_some());
    assert_eq!(text_of(at(turn1, &["0", "cache_control", "type"])), "ephemeral");
    assert!(at(&body, &["messages", "3", "content"]).as_str().is_some());
}

#[test]
fn inject_full_tags_penultimate_user_blocks() {
    let mut body = o(vec![(
        "messages",
        a(vec![
            o(vec![("role", s("system")), ("content", s("sys"))]),
            o(vec![
                ("role", s("user")),
                (
                    "content",
                    a(vec![o(vec![("type", s("text")), ("text", s("Part 1"))]), o(vec![("type", s("text")), ("text", s("Part 2"))])]),
                ),
            ]),
            o(vec![("role", s("assistant")), ("content", s("Reply"))]),
            o(vec![("role", s("user")), ("content", s("Turn 2"))]),
        ]),
    )]);
    inject(&mut body, CacheStrategy::Full);
    assert!(at(&body, &["messages", "1", "content", "0"]).get("cache_control").is_none());
    assert_eq!(text_of(at(&body, &["messages", "1", "content", "1", "cache_control", "type"])), "ephemeral");
}

#[test]
fn inject_preserves_existing_cache_control() {
    let mut body = o(vec![
        (
            "messages",
            a(vec![
                o(vec![("role", s("system")), ("content", a(vec![o(vec![("type", s("text")), ("text", s("sys")), ("cache_control", o(vec![("type", s("custom"))]))])]))]),
                o(vec![("role", s("user")), ("content", s("Hi"))]),
            ]),
        ),
        ("tools", a(vec![o(vec![("type", s("function")), ("function", o(vec![("name", s("t"))])), ("cache_control", o(vec![("type", s("custom"))]))])])),
    ]);
    inject(&mut body, CacheStrategy::Standard);
    assert_eq!(text_of(at(&body, &["messages", "0", "content", "0", "cache_control", "type"])), "custom");
    assert_eq!(text_of(at(&body, &["tools", "0", "cache_control", "type"])), "custom");
}

#[test]
fn inject_full_single_user_needs_system_or_tools() {
    let mut lone = o(vec![("messages", a(vec![o(vec![("role", s("user")), ("content", s("only"))])]))]);
    inject(&mut lone, CacheStrategy::Full);
    assert!(at(&lone, &["messages", "0", "content"]).as_str().is_some());
    let mut with_tools = o(vec![
        ("messages", a(vec![o(vec![("role", s("user")), ("content", s("only"))])])),
        ("tools", a(vec![])),
    ]);
    inject(&mut with_tools, CacheStrategy::Full);
    assert!(at(&with_tools, &["messages", "0", "content"]).as_array().is_some());
}

fn request(messages: Vec<Message>, tools: Vec<ToolDefinition>) -> CompletionRequest {
    CompletionRequest {
        model: "gpt-4o".into(),
        messages,
        tools,
        temperature: "0.7".into(),
        max_tokens: Some(256),
        stop: vec!["END".into()],
        extra: Json::Null,
    }
}

#[test]
fn openai_request_body() {
    let mut call = Message::assistant("");
    call.content = vec![ContentPart::ToolCall { id: "c1".into(), name: "search".into(), arguments: o(vec![("q", s("x"))]) }];
    let msgs = vec![
        Message::system("sys"),
        Message::user("hi"),
        call,
        Message::tool_result("c1", s("found"), false),
    ];
    let tools = vec![ToolDefinition { name: "search".into(), description: "Search".into(), parameters: o(vec![]) }];
    let req = request(msgs, tools);
    let embedded = wire::embedded_values(&req.messages);
    assert_eq!(embedded.iter().map(|v| v.len()).collect::<Vec<_>>(), vec![0, 0, 1, 1]);
    let provider = OpenAIProvider::new("sk").with_cache_strategy(CacheStrategy::NoCache);
    let body = provider.request_body(&req, false);
    assert_eq!(text_of(at(&body, &["model"])), "gpt-4o");
    assert_eq!(at(&body, &["max_tokens"]).as_u64(), Some(256));
    assert_eq!(text_of(at(&body, &["stop", "0"])), "END");
    assert_eq!(text_of(at(&body, &["messages", "0", "role"])), "system");
    assert_eq!(text_of(at(&body, &["messages", "0", "content"])), "sys");
    assert_eq!(text_of(at(&body, &["messages", "2", "tool_calls", "0", "function", "arguments"])), "{\"q\":\"x\"}");
    assert!(at(&body, &["messages", "2"]).get("content").is_none());
    assert_eq!(text_of(at(&body, &["messages", "3", "role"])), "tool");
    assert_eq!(text_of(at(&body, &["messages", "3", "content"])), "\"found\"");
    assert_eq!(text_of(at(&body, &["messages", "3", "tool_call_id"])), "c1");
    assert_eq!(text_of(at(&body, &["tools", "0", "function", "name"])), "search");
    assert_eq!(text_of(at(&body, &["tools", "0", "type"])), "function");
    let stream = provider.request_body(&req, true);
    assert!(matches!(at(&stream, &["stream"]), Json::Bool(true)));
    assert!(stream.get("stop").is_none());
    let cached = OpenAIProvider::new("sk").with_cache_strategy(CacheStrategy::Standard).request_body(&req, false);
    assert_eq!(text_of(at(&cached, &["tools", "0", "cache_control", "type"])), "ephemeral");
}

#[test]
fn openai_message_joins_text_parts() {
    let msg = Message {
        id: "m".into(),
        role: Role::User,
        content: vec![
            ContentPart::Text { text: "look".into() },
            ContentPart::Image { url: "http://i".into(), media_type: None },
        ],
        metadata: vec![],
        timestamp: Timestamp { secs: 0, nanos: 0 },
    };
    let v = openai::convert_message(&msg, &vec![]);
    assert_eq!(text_of(at(&v, &["content"])), "look\n[Image: http://i]");
}

#[test]
fn openai_headers_and_capabilities() {
    let p = OpenAIProvider::new("sk").with_organization("org").with_extra_headers(vec![("X-A".into(), "1".into())]);
    let h = p.headers();
    assert_eq!(h[0], ("Authorization".to_string(), "Bearer sk".to_string()));
    assert_eq!(h[2], ("OpenAI-Organization".to_string(), "org".to_string()));
    assert_eq!(h[3], ("X-A".to_string(), "1".to_string()));
    assert_eq!(p.endpoint("/chat/completions"), "https://api.openai.com/v1/chat/completions");
    assert!(p.capabilities().embeddings);
    assert_eq!(p.name(), "openai");
}

#[test]
fn openai_response_parsing() {
    let body = o(vec![
        (
            "choices",
            a(vec![o(vec![
                ("finish_reason", s("tool_calls")),
                (
                    "message",
                    o(vec![
                        ("content", s("thinking")),
                        ("tool_calls", a(vec![o(vec![("id", s("c1")), ("function", o(vec![("name", s("search")), ("arguments", s("{\"q\":1}"))]))])])),
                    ]),
                ),
            ])]),
        ),
        ("usage", o(vec![("prompt_tokens", n(10)), ("completion_tokens", n(5)), ("total_tokens", n(15)), ("prompt_tokens_details", o(vec![("cached_tokens", n(4))]))])),
    ]);
    assert_eq!(openai::argument_texts(&body), vec!["{\"q\":1}".to_string()]);
    let parsed = vec![Some(o(vec![("q", n(1))]))];
    let resp = openai::interpret_chat_response(200, &body, "gpt-4o", &parsed).unwrap();
    assert_eq!(resp.model, "gpt-4o");
    assert_eq!(resp.finish_reason, Some(FinishReason::ToolCalls));
    assert_eq!(resp.message.role, Role::Assistant);
    assert_eq!(resp.message.text(), Some("thinking"));
    let calls = resp.message.tool_calls();
    assert_eq!(calls.len(), 1);
    assert_eq!(calls[0].0, "c1");
    assert_eq!(calls[0].2.get("q").unwrap().as_u64(), Some(1));
    let usage = resp.usage.unwrap();
    assert_eq!((usage.prompt_tokens, usage.completion_tokens, usage.total_tokens), (10, 5, 15));
    assert_eq!(usage.cache_read_input_tokens, 4);
    // A failed parse of the arguments gives an empty object.
    let resp = openai::interpret_chat_response(200, &body, "gpt-4o", &vec![None]).unwrap();
    assert!(matches!(resp.message.tool_calls()[0].2, Json::Object(e) if e.is_empty()));
}

#[test]
fn openai_response_errors() {
    assert!(matches!(openai::interpret_chat_response(429, &Json::Null, "m", &vec![]), Err(ProviderError::RateLimited { retry_after_ms: 1000 })));
    assert!(matches!(openai::interpret_chat_response(401, &Json::Null, "m", &vec![]), Err(ProviderError::AuthenticationFailed(ref t)) if t == "Invalid API key"));
    let err_body = o(vec![("error", o(vec![("message", s("bad model"))]))]);
    match openai::interpret_chat_response(404, &err_body, "m", &vec![]) {
        Err(ProviderError::Api { status, message }) => {
            assert_eq!(status, 404);
            assert_eq!(message, "bad model");
        }
        _ => panic!(),
    }
    assert!(matches!(openai::interpret_chat_response(500, &o(vec![]), "m", &vec![]), Err(ProviderError::Api { ref message, .. }) if message == "Unknown error"));
    assert!(matches!(openai::interpret_chat_response(200, &o(vec![]), "m", &vec![]), Err(ProviderError::InvalidResponse(ref t)) if t == "No choices in response"));
    let no_msg = o(vec![("choices", a(vec![o(vec![])]))]);
    assert!(matches!(openai::interpret_chat_response(200, &no_msg, "m", &vec![]), Err(ProviderError::InvalidResponse(ref t)) if t == "No message in choice"));
    match wire::parse_failure("expected value", "<html>") {
        ProviderError::InvalidResponse(m) => assert_eq!(m, "Failed to parse JSON: expected value. Body starts with: <html>"),
        _ => panic!(),
    }
}

#[test]
fn openai_finish_reasons() {
    assert_eq!(openai::finish_reason_of("stop"), FinishReason::Stop);
    assert_eq!(openai::finish_reason_of("length"), FinishReason::Length);
    assert_eq!(openai::finish_reason_of("content_filter"), FinishReason::ContentFilter);
    assert_eq!(openai::finish_reason_of("other"), FinishReason::Stop);
}

#[test]
fn openai_stream_decoding() {
    let mut d = OpenAiStreamDecoder::new();
    let chunk = o(vec![("choices", a(vec![o(vec![("delta", o(vec![("content", s("Hel"))]))])]))]);
    let ev = d.on_chunk(&chunk);
    assert!(matches!(&ev[..], [StreamEvent::ContentDelta { delta }] if delta == "Hel"));
    let tc = o(vec![(
        "choices",
        a(vec![o(vec![(
            "delta",
            o(vec![("tool_calls", a(vec![o(vec![("index", n(0)), ("id", s("c1")), ("function", o(vec![("name", s("f")), ("arguments", s("{\"a\""))]))])]))]),
        )])]),
    )]);
    let ev = d.on_chunk(&tc);
    assert_eq!(ev.len(), 2);
    assert!(matches!(&ev[0], StreamEvent::ToolCallStart { index: 0, id, name } if id == "c1" && name == "f"));
    assert!(matches!(&ev[1], StreamEvent::ToolCallDelta { index: 0, arguments_delta } if arguments_delta == "{\"a\""));
    let fin = o(vec![("choices", a(vec![o(vec![("finish_reason", s("stop"))])]))]);
    assert!(d.on_chunk(&fin).is_empty());
    let usage = o(vec![("usage", o(vec![("prompt_tokens", n(3)), ("completion_tokens", n(2)), ("total_tokens", n(5))]))]);
    let ev = d.on_chunk(&usage);
    match &ev[..] {
        [StreamEvent::Done { usage: Some(u), finish_reason: Some(FinishReason::Stop) }] => assert_eq!(u.total_tokens, 5),
        _ => panic!("expected the final event"),
    }
    let mut d2 = OpenAiStreamDecoder::new();
    d2.on_chunk(&fin);
    assert!(matches!(&d2.on_done()[..], [StreamEvent::Done { usage: None, finish_reason: Some(FinishReason::Stop) }]));
    assert!(d2.on_done().is_empty());
}

#[test]
fn sse_framing() {
    assert_eq!(wire::take_line("data: x\r\r\nrest"), Some(("data: x".to_string(), "rest".to_string())));
    assert_eq!(wire::take_line("partial"), None);
    assert_eq!(wire::sse_data("data: {}"), Some("{}".to_string()));
    assert_eq!(wire::sse_data("event: ping"), None);
    assert_eq!(wire::text_lines("a\r\nb\n\nc"), vec!["a".to_string(), "b".to_string(), "".to_string(), "c".to_string()]);
    assert_eq!(wire::sse_payloads("data: 1\n: comment\ndata: [DONE]\ndata: 2\n"), vec!["1".to_string(), "2".to_string()]);
}

#[test]
fn sse_reassembly() {
    let mut acc = SseAssembler::new();
    acc.absorb_chunk(&o(vec![("id", s("r1")), ("model", s("m1")), ("choices", a(vec![o(vec![("delta", o(vec![("content", s("Hi "))]))])]))]));
    acc.absorb_chunk(&o(vec![("id", s("r2")), ("choices", a(vec![o(vec![("delta", o(vec![("content", s("there"))]))])]))]));
    let call = |idx: u64, id: Option<&str>, name: &str, args: &str| {
        let mut tc = vec![("index", n(idx))];
        if let Some(i) = id {
            tc.push(("id", s(i)));
        }
        tc.push(("function", o(vec![("name", s(name)), ("arguments", s(args))])));
        o(vec![("choices", a(vec![o(vec![("delta", o(vec![("tool_calls", a(vec![o(tc)]))]))])]))])
    };
    acc.absorb_chunk(&call(1, Some("c2"), "second", "{"));
    acc.absorb_chunk(&call(0, Some("c1"), "first", "["));
    acc.absorb_chunk(&call(1, None, "", "}"));
    acc.absorb_chunk(&o(vec![("choices", a(vec![o(vec![("finish_reason", s("tool_calls"))])])), ("usage", o(vec![("total_tokens", n(0))]))]));
    acc.absorb_chunk(&o(vec![("usage", o(vec![("total_tokens", n(9))]))]));
    let body = acc.finish();
    assert_eq!(text_of(at(&body, &["id"])), "r1");
    assert_eq!(text_of(at(&body, &["model"])), "m1");
    assert_eq!(text_of(at(&body, &["object"])), "chat.completion");
    assert_eq!(text_of(at(&body, &["choices", "0", "finish_reason"])), "tool_calls");
    assert_eq!(text_of(at(&body, &["choices", "0", "message", "content"])), "Hi there");
    assert_eq!(text_of(at(&body, &["choices", "0", "message", "tool_calls", "0", "id"])), "c1");
    assert_eq!(text_of(at(&body, &["choices", "0", "message", "tool_calls", "1", "function", "arguments"])), "{}");
    assert_eq!(at(&body, &["usage", "total_tokens"]).as_u64(), Some(9));
    // The reassembled body reads as a chat response.
    let resp = openai::interpret_chat_response(200, &body, "m1", &vec![None, None]).unwrap();
    assert_eq!(resp.message.tool_calls().len(), 2);
}

#[test]
fn openai_embeddings() {
    let req = EmbeddingRequest { model: "emb".into(), input: vec!["a".into(), "b".into()], encoding_format: Some("float".into()), dimensions: Some(8) };
    let body = openai::embedding_request_body(&req);
    assert_eq!(text_of(at(&body, &["input", "1"])), "b");
    assert_eq!(text_of(at(&body, &["encoding_format"])), "float");
    assert_eq!(at(&body, &["dimensions"]).as_u64(), Some(8));
    let resp_body = o(vec![
        ("data", a(vec![o(vec![("index", n(0)), ("embedding", a(vec![n(1)]))]), o(vec![("index", n(1))])])),
        ("usage", o(vec![("prompt_tokens", n(4)), ("total_tokens", n(4))])),
    ]);
    let resp = openai::interpret_embedding_response(200, &resp_body, "emb").unwrap();
    assert_eq!(resp.model, "emb");
    assert_eq!(resp.data.len(), 2);
    assert_eq!(resp.data[1].index, 1);
    assert!(resp.data[1].embedding.is_null());
    assert_eq!(resp.usage.total_tokens, 4);
    assert!(matches!(openai::interpret_embedding_response(200, &o(vec![]), "emb"), Err(ProviderError::InvalidResponse(ref t)) if t == "No data in response"));
}

#[test]
fn anthropic_request_body() {
    let mut call = Message::assistant("let me check");
    call.content.push(ContentPart::ToolCall { id: "t1".into(), name: "get".into(), arguments: o(vec![("k", s("v"))]) });
    let msgs = vec![Message::system("be brief"), Message::user("hi"), call, Message::tool_result("t1", s("ok"), true)];
    let mut req = request(msgs, vec![ToolDefinition { name: "get".into(), description: "Get".into(), parameters: o(vec![]) }]);
    req.max_tokens = None;
    let body = anthropic::request_body(&req, false);
    assert_eq!(at(&body, &["max_tokens"]).as_u64(), Some(4096));
    assert_eq!(text_of(at(&body, &["system"])), "be brief");
    assert_eq!(at(&body, &["messages"]).as_array().unwrap().len(), 3);
    assert_eq!(text_of(at(&body, &["messages", "1", "content", "1", "type"])), "tool_use");
    assert_eq!(text_of(at(&body, &["messages", "1", "content", "1", "input", "k"])), "v");
    assert_eq!(text_of(at(&body, &["messages", "2", "role"])), "user");
    assert_eq!(text_of(at(&body, &["messages", "2", "content", "0", "content"])), "\"ok\"");
    assert!(matches!(at(&body, &["messages", "2", "content", "0", "is_error"]), Json::Bool(true)));
    assert_eq!(text_of(at(&body, &["tools", "0", "name"])), "get");
    assert!(body.get("stream").is_none());
    let p = AnthropicProvider::new("key");
    assert_eq!(p.headers()[1], ("anthropic-version".to_string(), "2023-06-01".to_string()));
    assert_eq!(p.messages_url(), "https://api.anthropic.com/v1/messages");
    assert!(!p.capabilities().embeddings);
}

#[test]
fn anthropic_response_parsing() {
    let body = o(vec![
        ("id", s("msg_1")),
        ("content", a(vec![o(vec![("type", s("text")), ("text", s("Hello"))]), o(vec![("type", s("tool_use")), ("id", s("t1")), ("name", s("get"))]), o(vec![("type", s("other"))])])),
        ("stop_reason", s("tool_use")),
        ("usage", o(vec![("input_tokens", n(7)), ("output_tokens", n(3))])),
    ]);
    let resp = anthropic::interpret_response(200, &body, "m").unwrap();
    assert_eq!(resp.message.id, "msg_1");
    assert_eq!(resp.message.content.len(), 2);
    assert!(matches!(&resp.message.tool_calls()[0].2, Json::Object(e) if e.is_empty()));
    assert_eq!(resp.finish_reason, Some(FinishReason::ToolCalls));
    assert_eq!(resp.usage.unwrap().total_tokens, 10);
    assert_eq!(anthropic::stop_reason_of("end_turn"), FinishReason::Stop);
    assert_eq!(anthropic::stop_reason_of("max_tokens"), FinishReason::Length);
}

#[test]
fn anthropic_stream_decoding() {
    let mut d = AnthropicStreamDecoder::new();
    let start = o(vec![("type", s("message_start")), ("message", o(vec![("usage", o(vec![("input_tokens", n(11))]))]))]);
    assert!(d.on_event(&start).is_empty());
    let block = o(vec![("type", s("content_block_start")), ("index", n(2)), ("content_block", o(vec![("type", s("tool_use")), ("id", s("t")), ("name", s("f"))]))]);
    assert!(matches!(&d.on_event(&block)[..], [StreamEvent::ToolCallStart { index: 2, .. }]));
    let delta = o(vec![("type", s("content_block_delta")), ("delta", o(vec![("type", s("input_json_delta")), ("partial_json", s("{}"))]))]);
    assert!(matches!(&d.on_event(&delta)[..], [StreamEvent::ToolCallDelta { index: 2, .. }]));
    let text = o(vec![("type", s("content_block_delta")), ("delta", o(vec![("type", s("text_delta")), ("text", s("hi"))]))]);
    assert!(matches!(&d.on_event(&text)[..], [StreamEvent::ContentDelta { delta }] if delta == "hi"));
    let end = o(vec![("type", s("message_delta")), ("delta", o(vec![("stop_reason", s("end_turn"))])), ("usage", o(vec![("output_tokens", n(4))]))]);
    match &d.on_event(&end)[..] {
        [StreamEvent::Done { usage: Some(u), finish_reason: Some(FinishReason::Stop) }] => {
            assert_eq!((u.prompt_tokens, u.completion_tokens, u.total_tokens), (11, 4, 15))
        }
        _ => panic!("expected the final event"),
    }
}

#[test]
fn line_buffer_ignores_how_the_stream_is_cut() {
    let text = "data: {\"a\":1}\r\n\ndata: [DONE]\npartial";
    let mut whole = wire::SseLineBuffer::new();
    let all = whole.push(text);
    let mut pieces = wire::SseLineBuffer::new();
    let mut got = Vec::new();
    for piece in ["da", "ta: {\"a\"", ":1}\r", "\n\nda", "ta: [DONE]\npar", "tial"] {
        got.extend(pieces.push(piece));
    }
    assert_eq!(all, vec!["data: {\"a\":1}".to_string(), String::new(), "data: [DONE]".to_string()]);
    assert_eq!(got, all);
    assert_eq!(pieces.push("\n"), vec!["partial".to_string()]);
}

#[test]
fn stream_lines_and_status() {
    assert!(matches!(wire::stream_line("data: [DONE]"), wire::StreamLine::Done));
    assert!(matches!(wire::stream_line("event: ping"), wire::StreamLine::Skip));
    assert!(matches!(wire::stream_line(""), wire::StreamLine::Skip));
    match wire::stream_line("data: {}") {
        wire::StreamLine::Data(d) => assert_eq!(d, "{}"),
        _ => panic!("expected data"),
    }
    match wire::stream_status_error(500, "boom".to_string()) {
        Some(ProviderError::Api { status, message }) => {
            assert_eq!(status, 500);
            assert_eq!(message, "boom");
        }
        _ => panic!("expected an API error"),
    }
    assert!(wire::stream_status_error(200, String::new()).is_none());
}

#[test]
fn injecting_breakpoints_twice_is_injecting_once() {
    for strategy in [CacheStrategy::NoCache, CacheStrategy::SystemOnly, CacheStrategy::Standard, CacheStrategy::Full] {
        let mut body = o(vec![
            ("messages", a(vec![
                o(vec![("content", s("sys")), ("role", s("system"))]),
                o(vec![("content", s("q1")), ("role", s("user"))]),
                o(vec![("content", a(vec![o(vec![("text", s("a1")), ("type", s("text"))])])), ("role", s("assistant"))]),
                o(vec![("content", s("q2")), ("role", s("user"))]),
            ])),
            ("tools", a(vec![o(vec![("name", s("t"))])])),
        ]);
        lortex::cache::inject_cache_breakpoints(&mut body, strategy);
        let once = format!("{:?}", body);
        lortex::cache::inject_cache_breakpoints(&mut body, strategy);
        assert_eq!(format!("{:?}", body), once);
    }
}
