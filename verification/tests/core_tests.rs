use lortex::agent::{RunInput};
use lortex::error::{AgentError, GuardrailError, LortexError, MemoryError, ProviderError, ToolError};
use lortex::guardrail::{GuardrailMode, GuardrailResult};
use lortex::json::{Json, JsonNumber};
use lortex::message::{ContentPart, Message, Role, Timestamp};
use lortex::provider::ProviderCapabilities;
use lortex::runner::RunnerConfig;
use lortex::strategy::ModelSelection;
use lortex::event::{LogLevel, RunEvent, TracingEventHandler};

fn s(text: &str) -> Json {
    Json::Str(text.to_string())
}

fn obj(entries: Vec<(&str, Json)>) -> Json {
    Json::Object(entries.into_iter().map(|(k, v)| (k.to_string(), v)).collect())
}

#[test]
fn agent_error_display() {
    assert_eq!(AgentError::MaxIterationsExceeded(10).to_string(), "Max iterations (10) exceeded");
    assert_eq!(AgentError::HandoffFailed("timeout".into()).to_string(), "Handoff failed: timeout");
    assert_eq!(AgentError::AgentNotFound("x".into()).to_string(), "Agent not found: x");
    assert_eq!(AgentError::GuardrailBlocked("toxic".into()).to_string(), "Guardrail blocked: toxic");
    assert_eq!(AgentError::Other("misc".into()).to_string(), "misc");
}

#[test]
fn tool_error_display() {
    assert_eq!(ToolError::NotFound("search".into()).to_string(), "Tool not found: search");
    assert_eq!(ToolError::InvalidArguments("bad json".into()).to_string(), "Invalid arguments: bad json");
    assert_eq!(ToolError::ExecutionFailed("crash".into()).to_string(), "Execution failed: crash");
    assert_eq!(ToolError::PermissionDenied("no auth".into()).to_string(), "Permission denied: no auth");
    assert_eq!(ToolError::Timeout(5000).to_string(), "Timeout after 5000ms");
}

#[test]
fn provider_error_display() {
    assert_eq!(
        ProviderError::Api { status: 429, message: "rate limit".into() }.to_string(),
        "API error (429): rate limit"
    );
    assert_eq!(
        ProviderError::RateLimited { retry_after_ms: 1000 }.to_string(),
        "Rate limited, retry after 1000ms"
    );
    assert_eq!(ProviderError::Network("dns fail".into()).to_string(), "Network error: dns fail");
    assert_eq!(ProviderError::ModelNotSupported("gpt-5".into()).to_string(), "Model not supported: gpt-5");
}

#[test]
fn memory_error_display() {
    assert_eq!(MemoryError::SessionNotFound("abc".into()).to_string(), "Session not found: abc");
    assert_eq!(MemoryError::StorageError("disk full".into()).to_string(), "Storage error: disk full");
    assert_eq!(MemoryError::SearchError("index broken".into()).to_string(), "Search error: index broken");
}

#[test]
fn guardrail_error_display() {
    assert_eq!(
        GuardrailError::CheckFailed("bad input".into()).to_string(),
        "Guardrail check failed: bad input"
    );
    assert_eq!(
        GuardrailError::Configuration("missing key".into()).to_string(),
        "Configuration error: missing key"
    );
}

#[test]
fn lortex_error_from_agent_error() {
    let err: LortexError = AgentError::MaxIterationsExceeded(5).into();
    assert!(matches!(err, LortexError::Agent(_)));
    assert!(err.to_string().contains("5"));
}

#[test]
fn lortex_error_from_tool_error() {
    let err: LortexError = ToolError::NotFound("x".into()).into();
    assert!(matches!(err, LortexError::Tool(_)));
}

#[test]
fn lortex_error_from_provider_error() {
    let err: LortexError = ProviderError::Network("timeout".into()).into();
    assert!(matches!(err, LortexError::Provider(_)));
}

#[test]
fn lortex_error_from_memory_error() {
    let err: LortexError = MemoryError::SessionNotFound("s1".into()).into();
    assert!(matches!(err, LortexError::Memory(_)));
}

#[test]
fn lortex_error_from_guardrail_error() {
    let err: LortexError = GuardrailError::CheckFailed("blocked".into()).into();
    assert!(matches!(err, LortexError::Guardrail(_)));
}

#[test]
fn lortex_error_other() {
    let err = LortexError::Other("unexpected".into());
    assert_eq!(err.to_string(), "unexpected");
}

#[test]
fn wrapped_errors_keep_their_message() {
    let err: LortexError = ToolError::Timeout(30).into();
    assert_eq!(err.to_string(), "Tool error: Timeout after 30ms");
    let err = LortexError::Serialization("expected value".into());
    assert_eq!(err.to_string(), "Serialization error: expected value");
}

#[test]
fn guardrail_mode_default_is_parallel() {
    let mode = GuardrailMode::default();
    assert_eq!(mode, GuardrailMode::Parallel);
}

#[test]
fn guardrail_mode_equality() {
    assert_eq!(GuardrailMode::Parallel, GuardrailMode::Parallel);
    assert_eq!(GuardrailMode::Blocking, GuardrailMode::Blocking);
    assert_ne!(GuardrailMode::Parallel, GuardrailMode::Blocking);
}

#[test]
fn guardrail_result_predicates() {
    let pass = GuardrailResult::Pass;
    assert!(pass.is_pass() && !pass.is_warn() && !pass.is_block());
    let warn = GuardrailResult::Warn { message: "caution".into() };
    assert!(warn.is_warn() && !warn.is_pass() && !warn.is_block());
    let block = GuardrailResult::Block { message: "no".into() };
    assert!(block.is_block() && !block.is_pass() && !block.is_warn());
}

#[test]
fn message_convenience_constructors() {
    let sys = Message::system("you are helpful");
    assert_eq!(sys.role, Role::System);
    assert_eq!(sys.text(), Some("you are helpful"));

    let user = Message::user("hi");
    assert_eq!(user.role, Role::User);

    let asst = Message::assistant("hello");
    assert_eq!(asst.role, Role::Assistant);

    let tool = Message::tool_result("call_1", s("done"), false);
    assert_eq!(tool.role, Role::Tool);
    match &tool.content[0] {
        ContentPart::ToolResult { call_id, is_error, .. } => {
            assert_eq!(call_id, "call_1");
            assert!(!is_error);
        }
        _ => panic!("expected ToolResult"),
    }
}

#[test]
fn message_without_content() {
    let msg = Message { id: "test".into(), role: Role::User, content: vec![], metadata: vec![], timestamp: Timestamp { secs: 0, nanos: 0 } };
    assert_eq!(msg.text(), None);
    assert!(msg.tool_calls().is_empty());
}

#[test]
fn message_multi_part() {
    let msg = Message {
        id: "multi".into(),
        role: Role::Assistant,
        content: vec![
            ContentPart::Text { text: "Let me search".into() },
            ContentPart::ToolCall { id: "c1".into(), name: "search".into(), arguments: obj(vec![("q", s("test"))]) },
            ContentPart::ToolCall { id: "c2".into(), name: "read".into(), arguments: obj(vec![("path", s("/tmp"))]) },
        ],
        metadata: vec![],
        timestamp: Timestamp { secs: 0, nanos: 0 },
    };
    assert_eq!(msg.text(), Some("Let me search"));
    let calls = msg.tool_calls();
    assert_eq!(calls.len(), 2);
    assert_eq!(calls[0].1, "search");
    assert_eq!(calls[1].1, "read");
}

#[test]
fn message_with_metadata() {
    let msg = Message::user("test")
        .with_metadata("source", s("api"))
        .with_metadata("priority", Json::Number(JsonNumber::PosInt(1)));
    assert_eq!(msg.metadata.len(), 2);
    let source = msg.metadata.iter().find(|(k, _)| k == "source").unwrap();
    assert!(matches!(&source.1, Json::Str(v) if v == "api"));
}

#[test]
fn metadata_key_is_replaced_in_place() {
    let msg = Message::user("test")
        .with_metadata("k", s("a"))
        .with_metadata("other", s("b"))
        .with_metadata("k", s("c"));
    assert_eq!(msg.metadata.len(), 2);
    assert_eq!(msg.metadata[0].0, "k");
    assert!(matches!(&msg.metadata[0].1, Json::Str(v) if v == "c"));
}

#[test]
fn fresh_messages_get_distinct_ids() {
    let a = Message::user("x");
    let b = Message::user("x");
    assert_ne!(a.id, b.id);
    assert!(a.timestamp.secs > 0);
}

#[test]
fn provider_capabilities_default() {
    let caps = ProviderCapabilities::default();
    assert!(!caps.streaming);
    assert!(!caps.tool_calling);
    assert!(!caps.vision);
    assert!(!caps.embeddings);
    assert!(!caps.structured_output);
}

#[test]
fn runner_config_defaults() {
    let config = RunnerConfig::default();
    assert_eq!(config.max_iterations, 10);
    assert_eq!(config.max_tool_calls_per_turn, 20);
    assert!(config.enable_input_guardrails);
    assert!(config.enable_output_guardrails);
}

#[test]
fn model_selection_debug() {
    let sel = ModelSelection { provider: "openai".into(), model: "gpt-4o".into(), key: "openai/gpt-4o".into() };
    let dbg = format!("{:?}", sel);
    assert!(dbg.contains("gpt-4o"));
}

#[test]
fn run_input_conversions() {
    let a: RunInput = String::from("hi").into();
    assert!(matches!(a, RunInput::Text(ref t) if t == "hi"));
    let b: RunInput = vec![Message::user("x")].into();
    assert!(matches!(b, RunInput::Messages(ref m) if m.len() == 1));
    assert!(matches!(RunInput::text("t"), RunInput::Text(ref t) if t == "t"));
}

#[test]
fn json_clone_is_deep() {
    let v = obj(vec![("a", Json::Array(vec![s("x"), Json::Bool(true), Json::Null]))]);
    let c = v.clone();
    match (&v, &c) {
        (Json::Object(a), Json::Object(b)) => {
            assert_eq!(a.len(), b.len());
            assert_eq!(a[0].0, b[0].0);
        }
        _ => panic!("expected objects"),
    }
}

#[test]
fn json_get_and_set() {
    let mut v = obj(vec![("a", s("1")), ("b", s("2"))]);
    assert!(matches!(v.get("b"), Some(Json::Str(t)) if t == "2"));
    assert!(v.get("c").is_none());
    v.set("a", s("x"));
    v.set("c", Json::Bool(false));
    assert!(matches!(v.get("a"), Some(Json::Str(t)) if t == "x"));
    assert!(matches!(v.get("c"), Some(Json::Bool(false))));
    match &v {
        Json::Object(e) => {
            assert_eq!(e.len(), 3);
            assert_eq!(e[0].0, "a");
            assert_eq!(e[2].0, "c");
        }
        _ => panic!(),
    }
    assert_eq!(Json::Number(JsonNumber::PosInt(7)).as_u64(), Some(7));
    assert_eq!(Json::Number(JsonNumber::NegInt(-7)).as_u64(), None);
    assert!(Json::Array(vec![s("q")]).at(1).is_none());
}

#[test]
fn tracing_handler_levels_and_headlines() {
    let h = TracingEventHandler;
    let chunk = RunEvent::LlmChunk { delta: "x".to_string() };
    assert_eq!(h.level(&chunk), LogLevel::Trace);
    assert_eq!(h.headline(&chunk), "LLM chunk");
    let g = RunEvent::GuardrailTriggered { name: "g".to_string(), passed: false, message: None };
    assert_eq!(h.level(&g), LogLevel::Warn);
    assert_eq!(h.headline(&g), "Guardrail triggered");
    let e = RunEvent::Error { message: "m".to_string() };
    assert_eq!(h.level(&e), LogLevel::Error);
    assert_eq!(h.headline(&e), "Run error");
    let m = RunEvent::MemoryStore { session_id: "s".to_string(), count: 1 };
    assert_eq!(h.level(&m), LogLevel::Debug);
    assert_eq!(h.headline(&m), "Run event");
    let a = RunEvent::AgentStart { agent: "a".to_string() };
    assert_eq!(h.level(&a), LogLevel::Info);
    assert_eq!(h.headline(&a), "Agent started");
}

#[test]
fn message_ids_are_v4_uuids() {
    let m = Message::user("x");
    let id: Vec<char> = m.id.chars().collect();
    assert_eq!(id.len(), 36);
    for (i, c) in id.iter().enumerate() {
        if i == 8 || i == 13 || i == 18 || i == 23 {
            assert_eq!(*c, '-');
        } else {
            assert!(c.is_ascii_hexdigit() && !c.is_ascii_uppercase());
        }
    }
    assert_eq!(id[14], '4');
}

#[test]
fn setting_a_key_on_null_makes_an_object() {
    let mut j = Json::Null;
    j.set("k", s("v"));
    assert!(matches!(j.get("k"), Some(Json::Str(v)) if v == "v"));
    j.set("k", s("w"));
    assert!(matches!(j.get("k"), Some(Json::Str(v)) if v == "w"));
    assert!(matches!(&j, Json::Object(e) if e.len() == 1));
}
