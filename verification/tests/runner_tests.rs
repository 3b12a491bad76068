use std::collections::VecDeque;

use lortex::agent::{handoff_description_for, handoff_name_for, AgentBuilder, RunInput, RunOutput};
use lortex::error::LortexError;
use lortex::event::RunEvent;
use lortex::execution::{execution_input, plan_input, plan_text, PlanAndExecuteStrategy, ReActStrategy};
use lortex::guardrail::GuardrailResult;
use lortex::json::Json;
use lortex::message::{ContentPart, Message, Role};
use lortex::provider::{CompletionResponse, ToolDefinition};
use lortex::runner::{
    build_tool_definitions, guardrail_event, guardrail_outcome, start_messages, AgentLoop, HandoffSpec,
    LoopAction, LoopAgent, LoopPhase, Runner, RunnerBuilder, RunnerConfig,
};
use lortex::tool::ToolOutput;
use lortex::runner::loop_request;
use lortex::error::ProviderError;
use lortex::provider::{StreamEvent, Usage};
use lortex::runner::stream_run_event;

fn obj(entries: Vec<(&str, Json)>) -> Json {
    Json::Object(entries.into_iter().map(|(k, v)| (k.to_string(), v)).collect())
}

fn make_tool_call_response(tool_name: &str, call_id: &str, args: Json) -> CompletionResponse {
    let mut msg = Message::assistant("");
    msg.content = vec![ContentPart::ToolCall { id: call_id.into(), name: tool_name.into(), arguments: args }];
    CompletionResponse { message: msg, usage: None, finish_reason: None, model: "mock".into() }
}

fn make_text_response(text: &str) -> CompletionResponse {
    CompletionResponse { message: Message::assistant(text), usage: None, finish_reason: None, model: "mock".into() }
}

fn echo_definition() -> ToolDefinition {
    ToolDefinition {
        name: "echo".into(),
        description: "Echo input".into(),
        parameters: obj(vec![("type", Json::Str("object".into()))]),
    }
}

fn loop_agent(name: &str, tools: Vec<ToolDefinition>, handoffs: Vec<HandoffSpec>) -> LoopAgent {
    LoopAgent { name: name.into(), model: "mock".into(), tools, handoffs }
}

/// Runs a loop to its end: the LLM answers from `responses`, the echo tool
/// echoes its `text` argument, and output guardrails block with `block`.
fn drive(
    mut lp: AgentLoop,
    responses: &mut VecDeque<CompletionResponse>,
    block: Option<&str>,
    events: &mut Vec<RunEvent>,
) -> (LoopAction, AgentLoop) {
    let mut step = lp.proceed();
    loop {
        events.extend(step.events);
        step = match step.action {
            LoopAction::CallLlm(_) => match responses.pop_front() {
                Some(r) => lp.llm_replied(r),
                None => lp.llm_failed(lortex::error::ProviderError::InvalidResponse("No more mock responses".into())),
            },
            LoopAction::ExecuteTool { args, .. } => {
                let text = match args.get("text").and_then(|v| v.as_str()) {
                    Some(t) => t.to_string(),
                    None => String::new(),
                };
                lp.tool_finished(ToolOutput::text(&format!("echoed: {text}")))
            }
            LoopAction::CheckOutput(_) => lp.output_checked(block.map(|b| b.to_string())),
            LoopAction::Continue => lp.proceed(),
            other => return (other, lp),
        };
    }
}

fn run(
    agent: LoopAgent,
    instructions: &str,
    input: RunInput,
    config: RunnerConfig,
    responses: Vec<CompletionResponse>,
    block: Option<&str>,
) -> Result<RunOutput, LortexError> {
    let mut queue: VecDeque<CompletionResponse> = responses.into();
    let mut events = vec![];
    let lp = AgentLoop::new(config, "session", agent, start_messages(instructions, input));
    match drive(lp, &mut queue, block, &mut events).0 {
        LoopAction::Finish(out) => Ok(out),
        LoopAction::Fail(e) => Err(e),
        _ => panic!("unexpected end"),
    }
}

#[test]
fn runner_builder_requires_provider() {
    let result = RunnerBuilder::<(), ()>::new().build();
    assert!(result.is_err());
    assert_eq!(result.unwrap_err(), "Provider is required");
}

#[test]
fn runner_builder_with_provider() {
    let runner = RunnerBuilder::<&str, ()>::new().provider("mock").build();
    assert!(runner.is_ok());
}

#[test]
fn runner_builder_config_methods() {
    let runner = RunnerBuilder::<&str, ()>::new()
        .provider("mock")
        .max_iterations(5)
        .max_tool_calls_per_turn(3)
        .build()
        .unwrap();
    assert_eq!(runner.config().max_iterations, 5);
    assert_eq!(runner.config().max_tool_calls_per_turn, 3);
}

#[test]
fn runner_new_uses_defaults() {
    let runner: Runner<&str, u8> = Runner::new("p");
    assert_eq!(runner.config(), RunnerConfig::default());
    assert!(runner.event_handlers().is_empty());
    assert_eq!(*runner.provider(), "p");
}

#[test]
fn run_simple_text_response() {
    let out = run(
        loop_agent("test_agent", vec![], vec![]),
        "You are a test agent",
        RunInput::text("Hi"),
        RunnerConfig::default(),
        vec![make_text_response("Hello!")],
        None,
    )
    .unwrap();
    assert_eq!(out.message.text(), Some("Hello!"));
    assert_eq!(out.agent_name, "test_agent");
    assert!(out.messages.len() >= 3);
    assert_eq!(out.messages.len(), 3);
    assert_eq!(out.messages[0].role, Role::System);
    assert_eq!(out.messages[1].role, Role::User);
}

#[test]
fn run_with_tool_call() {
    let args = obj(vec![("text", Json::Str("hello".into()))]);
    let out = run(
        loop_agent("tool_agent", vec![echo_definition()], vec![]),
        "Use tools",
        RunInput::text("echo something"),
        RunnerConfig::default(),
        vec![make_tool_call_response("echo", "call_1", args), make_text_response("Done echoing")],
        None,
    )
    .unwrap();
    assert_eq!(out.message.text(), Some("Done echoing"));
    let result = out.messages.iter().find(|m| m.role == Role::Tool).unwrap();
    match &result.content[0] {
        ContentPart::ToolResult { call_id, content, is_error } => {
            assert_eq!(call_id, "call_1");
            assert!(matches!(content, Json::Str(t) if t == "echoed: hello"));
            assert!(!is_error);
        }
        _ => panic!("expected ToolResult"),
    }
}

#[test]
fn run_unknown_tool_returns_error_output() {
    let out = run(
        loop_agent("test_agent", vec![], vec![]),
        "You are a test agent",
        RunInput::text("test"),
        RunnerConfig::default(),
        vec![make_tool_call_response("nonexistent", "call_1", obj(vec![])), make_text_response("Fallback answer")],
        None,
    )
    .unwrap();
    assert_eq!(out.message.text(), Some("Fallback answer"));
    let tool_result_msg = out.messages.iter().find(|m| m.role == Role::Tool).unwrap();
    match &tool_result_msg.content[0] {
        ContentPart::ToolResult { is_error, content, .. } => {
            assert!(is_error);
            assert!(matches!(content, Json::Str(t) if t == "Tool not found: nonexistent"));
        }
        _ => panic!("expected ToolResult"),
    }
}

#[test]
fn run_max_iterations_exceeded() {
    let responses: Vec<CompletionResponse> =
        (0..20).map(|i| make_tool_call_response("echo", &format!("call_{i}"), obj(vec![]))).collect();
    let config = RunnerConfig { max_iterations: 3, ..RunnerConfig::default() };
    let mut queue: VecDeque<CompletionResponse> = responses.into();
    let mut events = vec![];
    let lp = AgentLoop::new(config, "s", loop_agent("test_agent", vec![], vec![]), start_messages("x", RunInput::text("loop forever")));
    let (action, lp) = drive(lp, &mut queue, None, &mut events);
    let err = match action {
        LoopAction::Fail(e) => e,
        _ => panic!("expected a failure"),
    };
    assert!(err.to_string().contains("Max iterations (3) exceeded"));
    // Exactly three LLM calls were made.
    assert_eq!(queue.len(), 17);
    let starts = events.iter().filter(|e| matches!(e, RunEvent::LlmStart { .. })).count();
    assert_eq!(starts, 3);
    assert_eq!(lp.current_phase(), LoopPhase::Done);
}

#[test]
fn run_with_input_guardrail_block() {
    let result = GuardrailResult::Block { message: "All input blocked".into() };
    let event = guardrail_event("block_all", &result);
    assert!(matches!(event, RunEvent::GuardrailTriggered { ref name, passed: false, message: Some(ref m) } if name == "block_all" && m == "All input blocked"));
    let err = guardrail_outcome(result).unwrap_err();
    assert!(err.to_string().contains("Guardrail blocked"));
}

#[test]
fn guardrail_warning_lets_the_run_go_on() {
    let result = GuardrailResult::Warn { message: "careful".into() };
    let event = guardrail_event("g", &result);
    assert!(matches!(event, RunEvent::GuardrailTriggered { passed: false, message: Some(ref m), .. } if m == "careful"));
    assert!(guardrail_outcome(result).is_ok());
    let event = guardrail_event("g", &GuardrailResult::Pass);
    assert!(matches!(event, RunEvent::GuardrailTriggered { passed: true, message: None, .. }));
}

#[test]
fn run_with_output_guardrail_block() {
    let err = run(
        loop_agent("guarded", vec![], vec![]),
        "",
        RunInput::text("test"),
        RunnerConfig::default(),
        vec![make_text_response("bad output")],
        Some("Output blocked"),
    )
    .unwrap_err();
    assert!(err.to_string().contains("Guardrail blocked"));
    assert_eq!(err.to_string(), "Agent error: Guardrail blocked: Output blocked");
}

#[test]
fn run_with_messages_input() {
    let out = run(
        loop_agent("test_agent", vec![], vec![]),
        "You are a test agent",
        RunInput::Messages(vec![Message::user("hello"), Message::user("world")]),
        RunnerConfig::default(),
        vec![make_text_response("response")],
        None,
    )
    .unwrap();
    assert_eq!(out.message.text(), Some("response"));
    assert_eq!(out.messages.len(), 4);
}

#[test]
fn run_with_handoff() {
    let handoff = HandoffSpec {
        tool_name: handoff_name_for("target"),
        tool_description: handoff_description_for("target"),
        target: "target".into(),
    };
    assert_eq!(handoff.tool_name, "transfer_to_target");
    let mut queue: VecDeque<CompletionResponse> = vec![
        make_tool_call_response("transfer_to_target", "call_1", obj(vec![])),
        make_text_response("Target response"),
    ]
    .into();
    let mut events = vec![];
    let router = AgentLoop::new(
        RunnerConfig::default(),
        "s",
        loop_agent("router", vec![], vec![handoff]),
        start_messages("Route tasks", RunInput::text("do something")),
    );
    let (action, _) = drive(router, &mut queue, None, &mut events);
    let messages = match action {
        LoopAction::HandOff { handoff_index, messages } => {
            assert_eq!(handoff_index, 0);
            messages
        }
        _ => panic!("expected a handoff"),
    };
    assert!(events.iter().any(|e| matches!(e, RunEvent::Handoff { from, to, reason } if from == "router" && to == "target" && reason == "LLM invoked handoff tool: transfer_to_target")));
    let target = AgentLoop::new(
        RunnerConfig::default(),
        "s",
        loop_agent("target", vec![], vec![]),
        start_messages("I am the target", RunInput::Messages(messages)),
    );
    let (action, _) = drive(target, &mut queue, None, &mut events);
    match action {
        LoopAction::Finish(out) => {
            assert_eq!(out.message.text(), Some("Target response"));
            assert_eq!(out.agent_name, "target");
        }
        _ => panic!("expected a final answer"),
    }
}

#[test]
fn run_guardrails_disabled() {
    let config = RunnerConfig { enable_input_guardrails: false, enable_output_guardrails: false, ..RunnerConfig::default() };
    let out = run(
        loop_agent("guarded", vec![], vec![]),
        "",
        RunInput::text("test"),
        config,
        vec![make_text_response("success")],
        Some("blocked"),
    )
    .unwrap();
    assert_eq!(out.message.text(), Some("success"));
}

#[test]
fn provider_failure_fails_the_run() {
    let err = run(
        loop_agent("a", vec![], vec![]),
        "",
        RunInput::text("x"),
        RunnerConfig::default(),
        vec![],
        None,
    )
    .unwrap_err();
    assert_eq!(err.to_string(), "Provider error: Invalid response: No more mock responses");
}

#[test]
fn start_messages_skip_empty_instructions() {
    let msgs = start_messages("", RunInput::text("hi"));
    assert_eq!(msgs.len(), 1);
    assert_eq!(msgs[0].role, Role::User);
    let msgs = start_messages("be brief", RunInput::text("hi"));
    assert_eq!(msgs.len(), 2);
    assert_eq!(msgs[0].text(), Some("be brief"));
}

#[test]
fn tool_definitions_include_handoffs() {
    let handoff = HandoffSpec { tool_name: "transfer_to_b".into(), tool_description: "d".into(), target: "b".into() };
    let defs = build_tool_definitions(&vec![echo_definition()], &vec![handoff]);
    assert_eq!(defs.len(), 2);
    assert_eq!(defs[0].name, "echo");
    assert_eq!(defs[1].name, "transfer_to_b");
    match &defs[1].parameters {
        Json::Object(e) => {
            let keys: Vec<&str> = e.iter().map(|(k, _)| k.as_str()).collect();
            assert_eq!(keys, vec!["properties", "required", "type"]);
        }
        _ => panic!("expected an object"),
    }
}

#[test]
fn llm_request_carries_the_transcript() {
    let mut lp = AgentLoop::new(
        RunnerConfig::default(),
        "s",
        loop_agent("a", vec![echo_definition()], vec![]),
        start_messages("sys", RunInput::text("q")),
    );
    let step = lp.proceed();
    match step.action {
        LoopAction::CallLlm(req) => {
            assert_eq!(req.model, "mock");
            assert_eq!(req.messages.len(), 2);
            assert_eq!(req.tools.len(), 1);
            assert_eq!(req.temperature, "0.7");
            assert!(req.max_tokens.is_none());
            assert!(req.stop.is_empty());
        }
        _ => panic!("expected an LLM call"),
    }
    assert!(matches!(step.events[0], RunEvent::LlmStart { message_count: 2, .. }));
}

#[test]
fn agent_builder_requires_name_and_model() {
    let b: AgentBuilder<u8, u8, u8, u8> = AgentBuilder::new();
    assert_eq!(b.build().unwrap_err(), "Agent name is required");
    let b: AgentBuilder<u8, u8, u8, u8> = AgentBuilder::new().name("a");
    assert_eq!(b.build().unwrap_err(), "Agent model is required");
    let a = AgentBuilder::<u8, u8, u8, u8>::new().name("a").model("m").tool(1).build().unwrap();
    assert_eq!(a.name(), "a");
    assert_eq!(a.instructions(), "");
    assert_eq!(a.tools(), &vec![1u8]);
    assert_eq!(handoff_description_for("b"), "Hand off the conversation to the b agent.");
}

#[test]
fn react_strategy_defaults() {
    assert_eq!(ReActStrategy::default().max_iterations, 10);
    assert_eq!(ReActStrategy::new(4).max_iterations, 4);
    let p = PlanAndExecuteStrategy::new("planner", 5);
    assert_eq!(p.max_steps, 5);
}

#[test]
fn plan_and_execute_prompts() {
    let input = RunInput::text("write a poem");
    match plan_input(&input) {
        RunInput::Text(t) => assert_eq!(
            t,
            "Create a step-by-step plan to accomplish the following task. Return the plan as a numbered list.\n\nTask: write a poem"
        ),
        _ => panic!(),
    }
    match execution_input(&input, "1. rhyme") {
        RunInput::Text(t) => assert_eq!(
            t,
            "Execute the following plan step by step. Use the available tools as needed.\n\nOriginal task: write a poem\n\nPlan:\n1. rhyme"
        ),
        _ => panic!(),
    }
    let msgs = RunInput::Messages(vec![Message::user("a"), Message::user("b")]);
    match plan_input(&msgs) {
        RunInput::Messages(m) => {
            assert_eq!(m.len(), 2);
            assert_eq!(m[0].text(), Some("a"));
            assert!(m[1].text().unwrap().ends_with("Task: b"));
        }
        _ => panic!(),
    }
    let no_text = Message::tool_result("c", Json::Null, false);
    assert_eq!(plan_text(&no_text), "No plan generated");
}

#[test]
fn loop_request_carries_model_messages_and_tools() {
    let agent = LoopAgent {
        name: "a".into(),
        model: "m1".into(),
        tools: vec![ToolDefinition { name: "t".into(), description: "d".into(), parameters: Json::Null }],
        handoffs: vec![HandoffSpec { tool_name: "transfer_to_b".into(), tool_description: "x".into(), target: "b".into() }],
    };
    let messages = vec![Message::user("hi")];
    let req = loop_request(&agent, &messages);
    assert_eq!(req.model, "m1");
    assert_eq!(req.messages.len(), 1);
    assert_eq!(req.messages[0].text(), Some("hi"));
    assert_eq!(req.tools.len(), 2);
    assert_eq!(req.tools[1].name, "transfer_to_b");
    assert_eq!(req.temperature, "0.7");
    assert!(req.max_tokens.is_none());
    assert!(req.stop.is_empty());
    assert!(req.extra.is_null());
}

#[test]
fn stream_events_become_run_events() {
    match stream_run_event("m", Ok(StreamEvent::ContentDelta { delta: "x".into() })) {
        Some(RunEvent::LlmChunk { delta }) => assert_eq!(delta, "x"),
        other => panic!("unexpected {:?}", other),
    }
    let usage = Usage { prompt_tokens: 1, completion_tokens: 2, total_tokens: 3, cache_creation_input_tokens: 0, cache_read_input_tokens: 0 };
    match stream_run_event("m", Ok(StreamEvent::Done { usage: Some(usage), finish_reason: None })) {
        Some(RunEvent::LlmEnd { model, usage: Some(u) }) => {
            assert_eq!(model, "m");
            assert_eq!(u.total_tokens, 3);
        }
        other => panic!("unexpected {:?}", other),
    }
    assert!(stream_run_event("m", Ok(StreamEvent::ToolCallDelta { index: 0, arguments_delta: "{".into() })).is_none());
    match stream_run_event("m", Err(ProviderError::Network("down".into()))) {
        Some(RunEvent::Error { message }) => assert_eq!(message, "Network error: down"),
        other => panic!("unexpected {:?}", other),
    }
}

#[test]
fn tool_calls_beyond_the_turn_limit_are_not_executed() {
    let mut two = Message::assistant("");
    two.content = vec![
        ContentPart::ToolCall { id: "c1".into(), name: "echo".into(), arguments: obj(vec![("text", Json::Str("a".into()))]) },
        ContentPart::ToolCall { id: "c2".into(), name: "echo".into(), arguments: obj(vec![("text", Json::Str("b".into()))]) },
    ];
    let responses = vec![
        CompletionResponse { message: two, usage: None, finish_reason: None, model: "mock".into() },
        make_text_response("done"),
    ];
    let config = RunnerConfig { max_tool_calls_per_turn: 1, ..RunnerConfig::default() };
    let out = run(loop_agent("a", vec![echo_definition()], vec![]), "", RunInput::text("go"), config, responses, None)
        .unwrap();
    let tool_messages: Vec<&Message> = out.messages.iter().filter(|m| m.role == Role::Tool).collect();
    assert_eq!(tool_messages.len(), 1);
    assert_eq!(out.message.text(), Some("done"));
}

#[test]
fn strategies_limit_the_runs() {
    let base = RunnerConfig::default();
    let react = ReActStrategy::new(4).runner_config(base);
    assert_eq!(react.max_iterations, 4);
    assert_eq!(react.max_tool_calls_per_turn, 20);
}
