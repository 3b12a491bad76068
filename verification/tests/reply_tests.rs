use lortex::anthropic;
use lortex::anthropic_stream::AnthropicStreamDecoder;
use lortex::codec::{parse_json, render_json};
use lortex::error::ProviderError;
use lortex::error::ToolError;
use lortex::json::{Json, JsonNumber};
use lortex::macro_support::{tool_argument, ToolArgument};
use lortex::openai;
use lortex::openai_stream::OpenAiStreamDecoder;
use lortex::provider::{FinishReason, StreamEvent};
use lortex::sse_assembly::reassemble_sse_response;

fn s(t: &str) -> Json {
    Json::Str(t.to_string())
}

fn n(v: u64) -> Json {
    Json::Number(JsonNumber::PosInt(v))
}

fn o(entries: Vec<(&str, Json)>) -> Json {
    Json::Object(entries.into_iter().map(|(k, v)| (k.to_string(), v)).collect())
}

#[test]
fn json_text_round_trip() {
    let v = parse_json("{\"a\": [1, -2, true, null, \"x\", 1.5]}").unwrap();
    let items = v.get("a").unwrap().as_array().unwrap();
    assert_eq!(items[0].as_u64(), Some(1));
    assert!(matches!(items[1], Json::Number(JsonNumber::NegInt(-2))));
    assert!(matches!(items[2], Json::Bool(true)));
    assert!(items[3].is_null());
    assert_eq!(items[4].as_str(), Some("x"));
    assert!(matches!(&items[5], Json::Number(JsonNumber::Float(t)) if t == "1.5"));
    assert_eq!(render_json(&v), "{\"a\":[1,-2,true,null,\"x\",1.5]}");
    assert_eq!(render_json(&o(vec![("q", s("x"))])), "{\"q\":\"x\"}");
    assert_eq!(render_json(&s("found")), "\"found\"");
    assert!(matches!(parse_json("hello"), Err(ref m) if m == "expected value at line 1 column 1"));
    assert_eq!(parse_json("7").unwrap().as_u64(), Some(7));
    assert_eq!(render_json(&n(7)), "7");
}

#[test]
fn chat_reply_from_json_text() {
    let text = "{\"choices\":[{\"finish_reason\":\"tool_calls\",\"message\":{\"content\":\"hm\",\"tool_calls\":[\
                {\"id\":\"c1\",\"function\":{\"name\":\"f\",\"arguments\":\"{\\\"q\\\":1}\"}},\
                {\"id\":\"c2\",\"function\":{\"name\":\"g\",\"arguments\":\"not json\"}}]}}],\
                \"usage\":{\"prompt_tokens\":3,\"completion_tokens\":2,\"total_tokens\":5}}";
    let resp = openai::read_chat_reply(200, text, "gpt").unwrap();
    assert_eq!(resp.model, "gpt");
    assert_eq!(resp.finish_reason, Some(FinishReason::ToolCalls));
    assert_eq!(resp.message.text(), Some("hm"));
    let calls = resp.message.tool_calls();
    assert_eq!(calls[0].2.get("q").unwrap().as_u64(), Some(1));
    assert!(matches!(&calls[1].2, Json::Object(e) if e.is_empty()));
    assert_eq!(resp.usage.unwrap().total_tokens, 5);
}

#[test]
fn chat_reply_from_event_stream_text() {
    let text = "data: {\"id\":\"r\",\"model\":\"m\",\"choices\":[{\"delta\":{\"content\":\"Hel\"}}]}\n\
                data: {\"choices\":[{\"delta\":{\"content\":\"lo\"},\"finish_reason\":\"stop\"}]}\n\
                data: [DONE]\n";
    let resp = openai::read_chat_reply(200, text, "gpt").unwrap();
    assert_eq!(resp.message.text(), Some("Hello"));
    assert_eq!(resp.finish_reason, Some(FinishReason::Stop));
    let body = reassemble_sse_response(text);
    assert_eq!(body.get("id").unwrap().as_str(), Some("r"));
    assert_eq!(body.get("model").unwrap().as_str(), Some("m"));
}

#[test]
fn chat_reply_errors() {
    match openai::read_chat_reply(200, "hello", "gpt") {
        Err(ProviderError::InvalidResponse(m)) => assert_eq!(
            m,
            "Failed to parse JSON: expected value at line 1 column 1. Body starts with: hello"
        ),
        _ => panic!("expected a parse failure"),
    }
    assert!(matches!(
        openai::read_chat_reply(429, "hello", "gpt"),
        Err(ProviderError::RateLimited { retry_after_ms: 1000 })
    ));
    assert!(matches!(
        openai::read_chat_reply(401, "", "gpt"),
        Err(ProviderError::AuthenticationFailed(ref m)) if m == "Invalid API key"
    ));
    match openai::read_chat_reply(500, "{\"error\":{\"message\":\"boom\"}}", "gpt") {
        Err(ProviderError::Api { status, message }) => {
            assert_eq!(status, 500);
            assert_eq!(message, "boom");
        }
        _ => panic!("expected an API error"),
    }
}

#[test]
fn embedding_reply_from_text() {
    let text = "{\"data\":[{\"index\":0,\"embedding\":[1,2]}],\"usage\":{\"prompt_tokens\":2,\"total_tokens\":2}}";
    let resp = openai::read_embedding_reply(200, text, "emb").unwrap();
    assert_eq!(resp.model, "emb");
    assert_eq!(resp.data.len(), 1);
    assert_eq!(resp.data[0].embedding.at(1).unwrap().as_u64(), Some(2));
    assert_eq!(resp.usage.prompt_tokens, 2);
    assert!(matches!(
        openai::read_embedding_reply(200, "[", "emb"),
        Err(ProviderError::InvalidResponse(ref m)) if m.starts_with("Failed to parse JSON: ") && m.ends_with(". Body starts with: [")
    ));
}

#[test]
fn anthropic_reply_from_text() {
    let text = "{\"id\":\"msg\",\"content\":[{\"type\":\"text\",\"text\":\"Hi\"}],\"stop_reason\":\"end_turn\"}";
    let resp = anthropic::read_anthropic_reply(200, text, "sonnet").unwrap();
    assert_eq!(resp.message.id, "msg");
    assert_eq!(resp.message.text(), Some("Hi"));
    assert_eq!(resp.finish_reason, Some(FinishReason::Stop));
    assert!(matches!(
        anthropic::read_anthropic_reply(200, "<html>", "sonnet"),
        Err(ProviderError::InvalidResponse(ref m)) if m == "error decoding response body"
    ));
}

#[test]
fn openai_stream_lines() {
    let mut d = OpenAiStreamDecoder::new();
    let (ev, done) = d.on_line("data: {\"choices\":[{\"delta\":{\"content\":\"Hi\"},\"finish_reason\":\"stop\"}]}");
    assert!(!done);
    assert!(matches!(&ev[..], [StreamEvent::ContentDelta { delta }] if delta == "Hi"));
    let (ev, done) = d.on_line(": keep-alive");
    assert!(ev.is_empty() && !done);
    let (ev, done) = d.on_line("data: {broken");
    assert!(ev.is_empty() && !done);
    let (ev, done) = d.on_line("data: [DONE]");
    assert!(done);
    assert!(matches!(&ev[..], [StreamEvent::Done { usage: None, finish_reason: Some(FinishReason::Stop) }]));
}

#[test]
fn anthropic_stream_lines() {
    let mut d = AnthropicStreamDecoder::new();
    assert!(d.on_line("event: content_block_delta").is_empty());
    let ev = d.on_line("data: {\"type\":\"content_block_delta\",\"delta\":{\"type\":\"text_delta\",\"text\":\"hi\"}}");
    assert!(matches!(&ev[..], [StreamEvent::ContentDelta { delta }] if delta == "hi"));
    assert!(d.on_line("data: nope").is_empty());
    let ev = d.on_line("data: {\"type\":\"message_delta\",\"delta\":{\"stop_reason\":\"max_tokens\"}}");
    assert!(matches!(&ev[..], [StreamEvent::Done { finish_reason: Some(FinishReason::Length), .. }]));
}

#[test]
fn generated_tool_arguments() {
    let args = o(vec![
        ("q", s("rust")),
        ("all", Json::Bool(true)),
        ("n", n(3)),
        ("neg", Json::Number(JsonNumber::NegInt(-4))),
        ("big", n(u64::MAX)),
        ("ratio", Json::Number(JsonNumber::Float("0.5".to_string()))),
        ("extra", o(vec![("k", n(1))])),
    ]);
    assert!(matches!(tool_argument(&args, "q", "String"), Ok(ToolArgument::Text(ref t)) if t == "rust"));
    assert!(matches!(tool_argument(&args, "all", "bool"), Ok(ToolArgument::Flag(true))));
    assert!(matches!(tool_argument(&args, "n", "i64"), Ok(ToolArgument::Integer(3))));
    assert!(matches!(tool_argument(&args, "neg", "i32"), Ok(ToolArgument::Integer(-4))));
    assert!(matches!(tool_argument(&args, "n", "f64"), Ok(ToolArgument::Number(JsonNumber::PosInt(3)))));
    assert!(matches!(tool_argument(&args, "ratio", "f32"), Ok(ToolArgument::Number(JsonNumber::Float(ref t))) if t == "0.5"));
    assert!(matches!(tool_argument(&args, "extra", "Config"), Ok(ToolArgument::Value(ref v)) if v.get("k").is_some()));
    assert!(matches!(tool_argument(&args, "absent", "Config"), Ok(ToolArgument::Value(Json::Null))));
    for (name, ty) in [("missing", "String"), ("n", "String"), ("q", "bool"), ("big", "i64"), ("ratio", "i64"), ("q", "f64")] {
        match tool_argument(&args, name, ty) {
            Err(ToolError::InvalidArguments(m)) => assert_eq!(m, format!("Missing or invalid argument: {}", name)),
            _ => panic!("expected an invalid argument for {}", name),
        }
    }
}

fn decode_openai(pieces: &[&str]) -> Vec<String> {
    let mut lines = lortex::wire::SseLineBuffer::new();
    let mut d = OpenAiStreamDecoder::new();
    let mut out = Vec::new();
    for piece in pieces {
        for line in lines.push(piece) {
            let (events, finished) = d.on_line(&line);
            for e in events {
                out.push(format!("{:?}", e));
            }
            if finished {
                return out;
            }
        }
    }
    out
}

#[test]
fn stream_decoding_ignores_how_the_body_is_cut() {
    let body = "data: {\"choices\":[{\"delta\":{\"content\":\"He\"}}]}\n\ndata: {\"choices\":[{\"delta\":{\"content\":\"y\"},\"finish_reason\":\"stop\"}]}\r\n\ndata: [DONE]\n";
    let whole = decode_openai(&[body]);
    let (a, rest) = body.split_at(7);
    let (b, c) = rest.split_at(60);
    let cut = decode_openai(&[a, b, c]);
    assert_eq!(whole.len(), 3);
    assert_eq!(whole, cut);
    let by_char: Vec<String> = body.chars().map(|ch| ch.to_string()).collect();
    let refs: Vec<&str> = by_char.iter().map(|s| s.as_str()).collect();
    assert_eq!(decode_openai(&refs), whole);
}
