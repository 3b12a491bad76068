//! The agent loop: the decisions of the runner, as a state machine.
//!
//! The runner calls the LLM, executes the tools it asks for, hands the
//! conversation off to other agents and checks guardrails. The calls
//! themselves are made by the caller; [`AgentLoop`] decides, from each
//! outcome, what to do next, and keeps the conversation transcript.

use vstd::prelude::*;
use crate::agent::{RunInput, RunOutput};
use crate::error::{AgentError, LortexError, ProviderError};
use crate::event::RunEvent;
use crate::guardrail::GuardrailResult;
use crate::json::{Json, JsonView};
use crate::message::{first_text, tool_calls_of, Message, MessageView, PartView, Role};
use crate::provider::{CompletionRequest, CompletionResponse, StreamEvent, ToolDefinition};
use crate::text::first_named;
use crate::session_table::{append_clones, clone_messages, views};
use crate::tool::{ToolContext, ToolOutput};

verus! {

/// Configuration of the runner.
#[derive(Debug, Clone, Copy, PartialEq, Eq, Structural)]
pub struct RunnerConfig {
    /// Maximum number of iterations (LLM calls) of the agent loop.
    pub max_iterations: usize,
    /// Maximum number of tool calls per iteration.
    pub max_tool_calls_per_turn: usize,
    /// Whether to run input guardrails.
    pub enable_input_guardrails: bool,
    /// Whether to run output guardrails.
    pub enable_output_guardrails: bool,
}

impl Default for RunnerConfig {
    /// Ten iterations, twenty tool calls per turn, all guardrails on.
    fn default() -> (r: RunnerConfig)
        ensures
            r.max_iterations == 10,
            r.max_tool_calls_per_turn == 20,
            r.enable_input_guardrails,
            r.enable_output_guardrails,
    {
        RunnerConfig {
            max_iterations: 10,
            max_tool_calls_per_turn: 20,
            enable_input_guardrails: true,
            enable_output_guardrails: true,
        }
    }
}

/// A handoff as the loop sees it: the tool that triggers it and the agent
/// it leads to.
#[derive(Debug)]
pub struct HandoffSpec {
    /// The tool name the LLM calls to hand off.
    pub tool_name: String,
    /// The description of that tool.
    pub tool_description: String,
    /// The name of the target agent.
    pub target: String,
}

/// What the loop knows of the agent it runs.
#[derive(Debug)]
pub struct LoopAgent {
    /// The agent's name.
    pub name: String,
    /// The model the agent uses.
    pub model: String,
    /// The definitions of the agent's tools, in order.
    pub tools: Vec<ToolDefinition>,
    /// The agent's handoffs, in order.
    pub handoffs: Vec<HandoffSpec>,
}

/// The JSON Schema of a handoff tool's parameters: an object without
/// properties.
pub open spec fn handoff_schema() -> JsonView {
    JsonView::Object(
        seq![
            ("properties"@, JsonView::Object(Seq::empty())),
            ("required"@, JsonView::Array(Seq::empty())),
            ("type"@, JsonView::Str("object"@)),
        ],
    )
}

/// The parameters of a handoff tool.
pub fn handoff_parameters() -> (r: Json)
    ensures
        r@ == handoff_schema(),
{
    let props = Json::Object(Vec::new());
    let required = Json::Array(Vec::new());
    assert(props@ == JsonView::Object(Seq::empty())) by {
        assert(props@->Object_0 =~= Seq::empty());
    }
    assert(required@ == JsonView::Array(Seq::empty())) by {
        assert(required@->Array_0 =~= Seq::empty());
    }
    let mut o: Vec<(String, Json)> = Vec::new();
    o.push((String::from_str("properties"), props));
    o.push((String::from_str("required"), required));
    o.push((String::from_str("type"), Json::Str(String::from_str("object"))));
    let r = Json::Object(o);
    assert(o@.len() == 3);
    assert(o@[0].0@ == "properties"@ && o@[0].1@ == JsonView::Object(Seq::empty()));
    assert(o@[1].0@ == "required"@ && o@[1].1@ == JsonView::Array(Seq::empty()));
    assert(o@[2].0@ == "type"@ && o@[2].1@ == JsonView::Str("object"@));
    assert(r@->Object_0 =~= handoff_schema()->Object_0);
    r
}

/// The tool definition the LLM sees for a handoff.
pub open spec fn handoff_definition(h: HandoffSpec) -> (Seq<char>, Seq<char>, JsonView) {
    (h.tool_name@, h.tool_description@, handoff_schema())
}

/// The views of a list of tool definitions.
pub open spec fn def_views(defs: Seq<ToolDefinition>) -> Seq<(Seq<char>, Seq<char>, JsonView)> {
    defs.map_values(|d: ToolDefinition| d@)
}

/// The tool definitions sent to the LLM: the agent's tools, then one tool
/// per handoff.
pub open spec fn all_definitions(tools: Seq<ToolDefinition>, handoffs: Seq<HandoffSpec>) -> Seq<
    (Seq<char>, Seq<char>, JsonView),
> {
    def_views(tools) + handoffs.map_values(|h: HandoffSpec| handoff_definition(h))
}

/// Builds the tool definitions of an LLM request from the agent's tools and
/// handoffs.
pub fn build_tool_definitions(tools: &Vec<ToolDefinition>, handoffs: &Vec<HandoffSpec>) -> (r: Vec<
    ToolDefinition,
>)
    ensures
        def_views(r@) == all_definitions(tools@, handoffs@),
{
    let mut defs: Vec<ToolDefinition> = Vec::new();
    let mut i: usize = 0;
    while i < tools.len()
        invariant
            0 <= i <= tools@.len(),
            def_views(defs@) == def_views(tools@).subrange(0, i as int),
        decreases tools@.len() - i,
    {
        let ghost prev = defs@;
        defs.push(tools[i].clone());
        assert(def_views(defs@) =~= def_views(prev).push(tools@[i as int]@));
        assert(def_views(tools@).subrange(0, i + 1) =~= def_views(tools@).subrange(
            0,
            i as int,
        ).push(tools@[i as int]@));
        i = i + 1;
    }
    assert(def_views(tools@).subrange(0, tools@.len() as int) =~= def_views(tools@));
    let ghost hdefs = handoffs@.map_values(|h: HandoffSpec| handoff_definition(h));
    let mut j: usize = 0;
    while j < handoffs.len()
        invariant
            0 <= j <= handoffs@.len(),
            hdefs == handoffs@.map_values(|h: HandoffSpec| handoff_definition(h)),
            def_views(defs@) == def_views(tools@) + hdefs.subrange(0, j as int),
        decreases handoffs@.len() - j,
    {
        let ghost prev = defs@;
        let d = ToolDefinition {
            name: handoffs[j].tool_name.clone(),
            description: handoffs[j].tool_description.clone(),
            parameters: handoff_parameters(),
        };
        defs.push(d);
        assert(def_views(defs@) =~= def_views(prev).push(hdefs[j as int]));
        assert(hdefs.subrange(0, j + 1) =~= hdefs.subrange(0, j as int).push(hdefs[j as int]));
        j = j + 1;
    }
    assert(hdefs.subrange(0, handoffs@.len() as int) =~= hdefs);
    defs
}

/// Whether `m` is a plain text message from `role` carrying `text`.
pub open spec fn is_text_message(m: MessageView, role: Role, text: Seq<char>) -> bool {
    m.role == role && m.content == seq![PartView::Text { text }] && m.metadata.len() == 0
}

/// The messages an agent run starts from: the agent's instructions as a
/// system message, when they are not empty, then the input: a text input
/// becomes one user message, messages are taken as they are.
pub fn start_messages(instructions: &str, input: RunInput) -> (r: Vec<Message>)
    ensures
        ({
            let skip: int = if instructions@.len() > 0 { 1 } else { 0 };
            &&& instructions@.len() > 0 ==> is_text_message(
                r@[0]@,
                Role::System,
                instructions@,
            )
            &&& match input {
                RunInput::Text(t) => r@.len() == skip + 1 && is_text_message(
                    r@[skip]@,
                    Role::User,
                    t@,
                ),
                RunInput::Messages(ms) => r@.len() == skip + ms@.len() && views(r@).subrange(
                    skip,
                    r@.len() as int,
                ) == views(ms@),
            }
        }),
{
    let mut out: Vec<Message> = Vec::new();
    if instructions.unicode_len() > 0 {
        out.push(Message::system(instructions));
    }
    let ghost skip: int = out@.len() as int;
    let ghost first = out@;
    match input {
        RunInput::Text(t) => {
            out.push(Message::user(t.as_str()));
            assert(skip == 1 ==> out@[0] == first[0]);
        },
        RunInput::Messages(ms) => {
            let sl = ms.as_slice();
            assert(sl@ == ms@);
            append_clones(&mut out, sl);
            assert(views(out@) == views(first) + views(ms@));
            assert(views(first).len() == skip);
            assert(views(out@).subrange(skip, out@.len() as int) =~= views(ms@));
            assert(skip == 1 ==> views(out@)[0] == views(first)[0]);
        },
    }
    out
}

/// The event that records a guardrail's verdict.
pub fn guardrail_event(name: &str, result: &GuardrailResult) -> (r: RunEvent)
    ensures
        r matches RunEvent::GuardrailTriggered { name: n, passed, message } && n@ == name@
            && passed == (*result is Pass) && match *result {
            GuardrailResult::Pass => message is None,
            GuardrailResult::Warn { message: w } => message matches Some(m) && m@ == w@,
            GuardrailResult::Block { message: b } => message matches Some(m) && m@ == b@,
        },
{
    let message = match result {
        GuardrailResult::Pass => None,
        GuardrailResult::Warn { message } => Some(message.clone()),
        GuardrailResult::Block { message } => Some(message.clone()),
    };
    RunEvent::GuardrailTriggered { name: String::from_str(name), passed: result.is_pass(), message }
}

/// What a guardrail's verdict means for the run: a block stops it with an
/// error carrying the guardrail's message; a pass or a warning lets it go on.
pub fn guardrail_outcome(result: GuardrailResult) -> (r: Result<(), LortexError>)
    ensures
        match result {
            GuardrailResult::Block { message } => r matches Err(
                LortexError::Agent(AgentError::GuardrailBlocked(m)),
            ) && m@ == message@,
            _ => r is Ok,
        },
{
    match result {
        GuardrailResult::Block { message } => Err(
            LortexError::Agent(AgentError::GuardrailBlocked(message)),
        ),
        _ => Ok(()),
    }
}

/// The LLM request of an agent turn over `messages`: the agent's model, the
/// messages, the agent's tool definitions, temperature 0.7 and nothing else.
pub fn loop_request(agent: &LoopAgent, messages: &Vec<Message>) -> (r: CompletionRequest)
    ensures
        is_loop_request(
            r,
            agent.model@,
            views(messages@),
            all_definitions(agent.tools@, agent.handoffs@),
        ),
{
    CompletionRequest {
        model: agent.model.clone(),
        messages: clone_messages(messages.as_slice()),
        tools: build_tool_definitions(&agent.tools, &agent.handoffs),
        temperature: String::from_str("0.7"),
        max_tokens: None,
        stop: Vec::new(),
        extra: Json::Null,
    }
}

/// The run event that reports an event of a streamed completion of
/// `model`: text deltas as chunks, the end of the stream with its usage,
/// and failures by their message; tool call deltas are not reported.
pub fn stream_run_event(model: &str, event: Result<StreamEvent, ProviderError>) -> (r: Option<
    RunEvent,
>)
    ensures
        match event {
            Ok(StreamEvent::ContentDelta { delta }) => r matches Some(RunEvent::LlmChunk { delta: d })
                && d@ == delta@,
            Ok(StreamEvent::Done { usage, .. }) => r matches Some(RunEvent::LlmEnd { model: m, usage: u })
                && m@ == model@ && u == usage,
            Ok(_) => r is None,
            Err(e) => r matches Some(RunEvent::Error { message }) && message@ == e.display(),
        },
{
    match event {
        Ok(StreamEvent::ContentDelta { delta }) => Some(RunEvent::LlmChunk { delta }),
        Ok(StreamEvent::Done { usage, .. }) => Some(
            RunEvent::LlmEnd { model: String::from_str(model), usage },
        ),
        Ok(_) => None,
        Err(e) => Some(RunEvent::Error { message: e.to_string() }),
    }
}

/// A tool call as the loop sees it: (call id, tool name, arguments).
pub type CallView = (Seq<char>, Seq<char>, JsonView);

/// The views of owned tool calls.
pub open spec fn call_views(calls: Seq<(String, String, Json)>) -> Seq<CallView> {
    calls.map_values(|c: (String, String, Json)| (c.0@, c.1@, c.2@))
}

/// Whether `m` is the result message of tool call `call_id`.
pub open spec fn is_tool_result(m: MessageView, call_id: Seq<char>, content: JsonView, is_error: bool) -> bool {
    m.role == Role::Tool && m.content == seq![PartView::ToolResult { call_id, content, is_error }]
        && m.metadata.len() == 0
}

/// The output recorded when the LLM calls a tool the agent does not have.
pub open spec fn not_found_output(name: Seq<char>) -> JsonView {
    JsonView::Str("Tool not found: "@ + name)
}

/// Why a handoff happened.
pub open spec fn handoff_reason(name: Seq<char>) -> Seq<char> {
    "LLM invoked handoff tool: "@ + name
}

/// Whether `req` is the LLM request of a loop iteration: the agent's model,
/// the whole transcript, the agent's tool definitions, temperature 0.7 and
/// nothing else.
pub open spec fn is_loop_request(
    req: CompletionRequest,
    model: Seq<char>,
    transcript: Seq<MessageView>,
    definitions: Seq<(Seq<char>, Seq<char>, JsonView)>,
) -> bool {
    &&& req.model@ == model
    &&& views(req.messages@) == transcript
    &&& def_views(req.tools@) == definitions
    &&& req.temperature@ == "0.7"@
    &&& req.max_tokens is None
    &&& req.stop@.len() == 0
    &&& req.extra@ == JsonView::Null
}

/// The first `n` of `calls`, or all of them when there are no more.
pub open spec fn first_calls(calls: Seq<CallView>, n: nat) -> Seq<CallView> {
    if calls.len() <= n {
        calls
    } else {
        calls.take(n as int)
    }
}

/// Whether `out` is the output of a run that ended with the last message of
/// `transcript`, by agent `agent`.
pub open spec fn is_run_output(out: RunOutput, agent: Seq<char>, transcript: Seq<MessageView>) -> bool {
    &&& transcript.len() > 0
    &&& out.message@ == transcript.last()
    &&& out.agent_name@ == agent
    &&& views(out.messages@) == transcript
    &&& out.metadata@.len() == 0
}

/// Where the loop stands.
#[derive(Debug, Clone, Copy, PartialEq, Eq, Structural)]
pub enum LoopPhase {
    /// Ready to go on: dispatch the next pending tool call, or else call
    /// the LLM.
    Ready,
    /// Waiting for the LLM's reply.
    AwaitingLlm,
    /// Waiting for a tool's output.
    AwaitingTool,
    /// Waiting for the output guardrails' verdict on the final answer.
    AwaitingOutputCheck,
    /// The run is over.
    Done,
}

/// What the caller must do next.
#[derive(Debug)]
pub enum LoopAction {
    /// Send this request to the LLM, then report the reply.
    CallLlm(CompletionRequest),
    /// Execute the agent's tool `tool_index` with `args`, then report its
    /// output.
    ExecuteTool { tool_index: usize, call_id: String, name: String, args: Json, context: ToolContext },
    /// Run the output guardrails on the final answer, then report the first
    /// block, if any.
    CheckOutput(Message),
    /// Run the target of handoff `handoff_index` on these messages; its
    /// result is the result of the run.
    HandOff { handoff_index: usize, messages: Vec<Message> },
    /// Nothing to do outside: go on.
    Continue,
    /// The run succeeded.
    Finish(RunOutput),
    /// The run failed.
    Fail(LortexError),
}

/// The result of a transition: the events to emit, in order, then the
/// action to perform.
#[derive(Debug)]
pub struct Step {
    pub events: Vec<RunEvent>,
    pub action: LoopAction,
}

/// The agent loop of one agent run.
///
/// Each iteration calls the LLM with the whole transcript; a reply without
/// tool calls is the final answer; otherwise its first
/// `max_tool_calls_per_turn` tool calls are executed in order, each result
/// appended, and the rest dropped; a call of a handoff tool hands the
/// conversation off. The loop fails once it has called the LLM
/// `max_iterations` times without a final answer.
#[derive(Debug)]
pub struct AgentLoop {
    config: RunnerConfig,
    session_id: String,
    agent: LoopAgent,
    messages: Vec<Message>,
    iterations: usize,
    phase: LoopPhase,
    calls: Vec<(String, String, Json)>,
    next_call: usize,
}

impl AgentLoop {
    /// The conversation so far.
    pub closed spec fn transcript(&self) -> Seq<MessageView> {
        views(self.messages@)
    }

    /// The number of LLM calls made so far.
    pub closed spec fn iterations(&self) -> nat {
        self.iterations as nat
    }

    /// The maximum number of LLM calls.
    pub closed spec fn max_iterations(&self) -> nat {
        self.config.max_iterations as nat
    }

    /// The maximum number of tool calls of one reply that are executed.
    pub closed spec fn max_tool_calls(&self) -> nat {
        self.config.max_tool_calls_per_turn as nat
    }

    /// Whether the final answer goes through the output guardrails.
    pub closed spec fn checks_output(&self) -> bool {
        self.config.enable_output_guardrails
    }

    /// Where the loop stands.
    pub closed spec fn phase(&self) -> LoopPhase {
        self.phase
    }

    /// The tool calls of the last reply that are not dispatched yet; while
    /// a tool runs, its call comes first.
    pub closed spec fn pending(&self) -> Seq<CallView> {
        call_views(self.calls@).subrange(self.next_call as int, self.calls@.len() as int)
    }

    /// The name of the agent.
    pub closed spec fn agent_name(&self) -> Seq<char> {
        self.agent.name@
    }

    /// The model of the agent.
    pub closed spec fn model(&self) -> Seq<char> {
        self.agent.model@
    }

    /// The session of the run.
    pub closed spec fn session(&self) -> Seq<char> {
        self.session_id@
    }

    /// The names of the agent's tools.
    pub closed spec fn tool_names(&self) -> Seq<Seq<char>> {
        self.agent.tools@.map_values(|d: ToolDefinition| d.name@)
    }

    /// The tool names of the agent's handoffs.
    pub closed spec fn handoff_names(&self) -> Seq<Seq<char>> {
        self.agent.handoffs@.map_values(|h: HandoffSpec| h.tool_name@)
    }

    /// The target agents of the agent's handoffs.
    pub closed spec fn handoff_targets(&self) -> Seq<Seq<char>> {
        self.agent.handoffs@.map_values(|h: HandoffSpec| h.target@)
    }

    /// The tool definitions sent to the LLM.
    pub closed spec fn definitions(&self) -> Seq<(Seq<char>, Seq<char>, JsonView)> {
        all_definitions(self.agent.tools@, self.agent.handoffs@)
    }

    /// Well-formedness: the iteration count stays within its bound, and a
    /// running tool or a final answer under check has its place.
    pub closed spec fn wf(&self) -> bool {
        &&& self.iterations <= self.config.max_iterations
        &&& self.next_call <= self.calls@.len()
        &&& self.phase == LoopPhase::AwaitingTool ==> self.next_call < self.calls@.len()
        &&& self.phase == LoopPhase::AwaitingOutputCheck ==> self.messages@.len() > 0
    }

    /// Whether `self` runs the same agent, session and configuration as
    /// `other`.
    pub open spec fn same_run(&self, other: AgentLoop) -> bool {
        &&& self.agent_name() == other.agent_name()
        &&& self.model() == other.model()
        &&& self.session() == other.session()
        &&& self.tool_names() == other.tool_names()
        &&& self.handoff_names() == other.handoff_names()
        &&& self.handoff_targets() == other.handoff_targets()
        &&& self.definitions() == other.definitions()
        &&& self.max_iterations() == other.max_iterations()
        &&& self.max_tool_calls() == other.max_tool_calls()
        &&& self.checks_output() == other.checks_output()
    }

    /// A loop for `agent` in session `session_id`, starting from `messages`.
    pub fn new(config: RunnerConfig, session_id: &str, agent: LoopAgent, messages: Vec<Message>) -> (r:
        AgentLoop)
        ensures
            r.wf(),
            r.phase() == LoopPhase::Ready,
            r.transcript() == views(messages@),
            r.iterations() == 0,
            r.pending().len() == 0,
            r.max_iterations() == config.max_iterations,
            r.max_tool_calls() == config.max_tool_calls_per_turn,
            r.checks_output() == config.enable_output_guardrails,
            r.agent_name() == agent.name@,
            r.model() == agent.model@,
            r.session() == session_id@,
            r.tool_names() == agent.tools@.map_values(|d: ToolDefinition| d.name@),
            r.handoff_names() == agent.handoffs@.map_values(|h: HandoffSpec| h.tool_name@),
            r.handoff_targets() == agent.handoffs@.map_values(|h: HandoffSpec| h.target@),
            r.definitions() == all_definitions(agent.tools@, agent.handoffs@),
    {
        let r = AgentLoop {
            config,
            session_id: String::from_str(session_id),
            agent,
            messages,
            iterations: 0,
            phase: LoopPhase::Ready,
            calls: Vec::new(),
            next_call: 0,
        };
        assert(r.pending() =~= Seq::empty());
        r
    }

    /// Where the loop stands.
    pub fn current_phase(&self) -> (r: LoopPhase)
        ensures
            r == self.phase(),
    {
        self.phase
    }

    /// The conversation so far.
    pub fn messages(&self) -> (r: &Vec<Message>)
        ensures
            views(r@) == self.transcript(),
    {
        &self.messages
    }
}

/// The index of the first tool named `name`.
fn find_tool(tools: &Vec<ToolDefinition>, name: &String) -> (r: Option<usize>)
    ensures
        match first_named(tools@.map_values(|d: ToolDefinition| d.name@), name@) {
            Some(i) => r matches Some(j) && j == i,
            None => r is None,
        },
        r matches Some(i) ==> i < tools@.len() && tools@[i as int].name@ == name@,
{
    let ghost names = tools@.map_values(|d: ToolDefinition| d.name@);
    let mut i: usize = 0;
    while i < tools.len()
        invariant
            0 <= i <= tools@.len(),
            names == tools@.map_values(|d: ToolDefinition| d.name@),
            forall|j: int| 0 <= j < i ==> names[j] != name@,
        decreases tools@.len() - i,
    {
        assert(names[i as int] == tools@[i as int].name@);
        if tools[i].name == *name {
            assert(first_named(names, name@) == Some(i as int));
            return Some(i);
        }
        i = i + 1;
    }
    None
}

/// The index of the first handoff whose tool is named `name`.
fn find_handoff(handoffs: &Vec<HandoffSpec>, name: &String) -> (r: Option<usize>)
    ensures
        match first_named(handoffs@.map_values(|h: HandoffSpec| h.tool_name@), name@) {
            Some(i) => r matches Some(j) && j == i,
            None => r is None,
        },
        r matches Some(i) ==> i < handoffs@.len() && handoffs@[i as int].tool_name@ == name@,
{
    let ghost names = handoffs@.map_values(|h: HandoffSpec| h.tool_name@);
    let mut i: usize = 0;
    while i < handoffs.len()
        invariant
            0 <= i <= handoffs@.len(),
            names == handoffs@.map_values(|h: HandoffSpec| h.tool_name@),
            forall|j: int| 0 <= j < i ==> names[j] != name@,
        decreases handoffs@.len() - i,
    {
        assert(names[i as int] == handoffs@[i as int].tool_name@);
        if handoffs[i].tool_name == *name {
            assert(first_named(names, name@) == Some(i as int));
            return Some(i);
        }
        i = i + 1;
    }
    None
}

impl AgentLoop {
    /// Goes on from `Ready`: dispatches the next pending tool call, or, when
    /// none is left, calls the LLM, unless `max_iterations` calls were made.
    ///
    /// A call of a handoff tool hands the conversation off; a call of one of
    /// the agent's tools is executed by the caller; a call of any other tool
    /// is answered at once with a "Tool not found" error result.
    pub fn proceed(&mut self) -> (r: Step)
        requires
            old(self).wf(),
            old(self).phase() == LoopPhase::Ready,
        ensures
            final(self).wf(),
            final(self).same_run(*old(self)),
            final(self).transcript().len() >= old(self).transcript().len(),
            final(self).transcript().subrange(0, old(self).transcript().len() as int) == old(
                self,
            ).transcript(),
            ({
                let t = old(self).transcript();
                let p = old(self).pending();
                if p.len() > 0 {
                    let id = p[0].0;
                    let name = p[0].1;
                    let args = p[0].2;
                    match first_named(old(self).handoff_names(), name) {
                        Some(h) => {
                            &&& final(self).phase() == LoopPhase::Done
                            &&& final(self).transcript() == t
                            &&& final(self).iterations() == old(self).iterations()
                            &&& r.events@.len() == 1
                            &&& r.events@[0] matches RunEvent::Handoff { from, to, reason }
                            &&& from@ == old(self).agent_name()
                            &&& to@ == old(self).handoff_targets()[h]
                            &&& reason@ == handoff_reason(name)
                            &&& r.action matches LoopAction::HandOff { handoff_index, messages }
                            &&& handoff_index == h
                            &&& views(messages@) == t
                        },
                        None => match first_named(old(self).tool_names(), name) {
                            Some(k) => {
                                &&& final(self).phase() == LoopPhase::AwaitingTool
                                &&& final(self).transcript() == t
                                &&& final(self).pending() == p
                                &&& final(self).iterations() == old(self).iterations()
                                &&& r.events@.len() == 1
                                &&& r.events@[0] matches RunEvent::ToolStart { name: n, args: a }
                                &&& n@ == name && a@ == args
                                &&& r.action matches LoopAction::ExecuteTool {
                                    tool_index,
                                    call_id,
                                    name: n2,
                                    args: a2,
                                    context,
                                }
                                &&& tool_index == k && call_id@ == id && n2@ == name && a2@ == args
                                &&& context.session_id@ == old(self).session()
                                &&& context.agent_name@ == old(self).agent_name()
                                &&& views(context.messages@) == t
                            },
                            None => {
                                &&& final(self).phase() == LoopPhase::Ready
                                &&& final(self).transcript().len() == t.len() + 1
                                &&& is_tool_result(
                                    final(self).transcript().last(),
                                    id,
                                    not_found_output(name),
                                    true,
                                )
                                &&& final(self).pending() == p.drop_first()
                                &&& final(self).iterations() == old(self).iterations()
                                &&& r.events@.len() == 2
                                &&& r.events@[0] matches RunEvent::ToolStart { name: n, args: a }
                                &&& n@ == name && a@ == args
                                &&& r.events@[1] matches RunEvent::ToolEnd {
                                    name: n3,
                                    output,
                                    is_error,
                                }
                                &&& n3@ == name && output@ == not_found_output(name) && is_error
                                &&& r.action is Continue
                            },
                        },
                    }
                } else if old(self).iterations() < old(self).max_iterations() {
                    &&& final(self).phase() == LoopPhase::AwaitingLlm
                    &&& final(self).transcript() == t
                    &&& final(self).pending().len() == 0
                    &&& final(self).iterations() == old(self).iterations() + 1
                    &&& r.events@.len() == 1
                    &&& r.events@[0] matches RunEvent::LlmStart { model, message_count }
                    &&& model@ == old(self).model() && message_count == t.len()
                    &&& r.action matches LoopAction::CallLlm(req)
                    &&& is_loop_request(req, old(self).model(), t, old(self).definitions())
                } else {
                    &&& final(self).phase() == LoopPhase::Done
                    &&& final(self).transcript() == t
                    &&& final(self).iterations() == old(self).iterations()
                    &&& r.events@.len() == 0
                    &&& r.action matches LoopAction::Fail(
                        LortexError::Agent(AgentError::MaxIterationsExceeded(n)),
                    )
                    &&& n == old(self).max_iterations()
                }
            }),
    {
        let ghost t = views(self.messages@);
        let ghost cv = call_views(self.calls@);
        assert(t.subrange(0, t.len() as int) =~= t);
        if self.next_call < self.calls.len() {
            let nc = self.next_call;
            let id = self.calls[nc].0.clone();
            let name = self.calls[nc].1.clone();
            let args = self.calls[nc].2.clone();
            assert(cv.subrange(nc as int, cv.len() as int)[0] == cv[nc as int]);
            match find_handoff(&self.agent.handoffs, &name) {
                Some(h) => {
                    let reason = String::from_str("LLM invoked handoff tool: ").concat(
                        name.as_str(),
                    );
                    let ev = RunEvent::Handoff {
                        from: self.agent.name.clone(),
                        to: self.agent.handoffs[h].target.clone(),
                        reason,
                    };
                    let messages = clone_messages(self.messages.as_slice());
                    self.phase = LoopPhase::Done;
                    let mut events: Vec<RunEvent> = Vec::new();
                    events.push(ev);
                    return Step { events, action: LoopAction::HandOff { handoff_index: h, messages } };
                },
                None => {},
            }
            match find_tool(&self.agent.tools, &name) {
                Some(k) => {
                    let ev = RunEvent::ToolStart { name: name.clone(), args: args.clone() };
                    let context = ToolContext {
                        session_id: self.session_id.clone(),
                        agent_name: self.agent.name.clone(),
                        messages: clone_messages(self.messages.as_slice()),
                    };
                    self.phase = LoopPhase::AwaitingTool;
                    let mut events: Vec<RunEvent> = Vec::new();
                    events.push(ev);
                    Step {
                        events,
                        action: LoopAction::ExecuteTool { tool_index: k, call_id: id, name, args, context },
                    }
                },
                None => {
                    let text = String::from_str("Tool not found: ").concat(name.as_str());
                    let start = RunEvent::ToolStart { name: name.clone(), args };
                    let end = RunEvent::ToolEnd {
                        name,
                        output: Json::Str(text.clone()),
                        is_error: true,
                    };
                    let ghost prev = self.messages@;
                    self.messages.push(Message::tool_result(id.as_str(), Json::Str(text), true));
                    assert(views(self.messages@) =~= views(prev).push(self.messages@.last()@));
                    self.next_call = nc + 1;
                    assert(cv.subrange(nc + 1, cv.len() as int) =~= cv.subrange(
                        nc as int,
                        cv.len() as int,
                    ).drop_first());
                    let mut events: Vec<RunEvent> = Vec::new();
                    events.push(start);
                    events.push(end);
                    Step { events, action: LoopAction::Continue }
                },
            }
        } else if self.iterations < self.config.max_iterations {
            let request = loop_request(&self.agent, &self.messages);
            let ev = RunEvent::LlmStart {
                model: self.agent.model.clone(),
                message_count: self.messages.len(),
            };
            self.iterations = self.iterations + 1;
            self.phase = LoopPhase::AwaitingLlm;
            assert(call_views(self.calls@).subrange(
                self.next_call as int,
                self.calls@.len() as int,
            ).len() == 0);
            let mut events: Vec<RunEvent> = Vec::new();
            events.push(ev);
            Step { events, action: LoopAction::CallLlm(request) }
        } else {
            self.phase = LoopPhase::Done;
            let n = self.config.max_iterations;
            Step {
                events: Vec::new(),
                action: LoopAction::Fail(LortexError::Agent(AgentError::MaxIterationsExceeded(n))),
            }
        }
    }
}

/// Owned copies of the tool calls of `message`, in order.
fn own_calls(message: &Message) -> (r: Vec<(String, String, Json)>)
    ensures
        call_views(r@) == tool_calls_of(message@.content),
{
    let calls = message.tool_calls();
    let ghost cv = calls@.map_values(|c: (&str, &str, &Json)| (c.0@, c.1@, c.2@));
    let mut out: Vec<(String, String, Json)> = Vec::new();
    let mut i: usize = 0;
    while i < calls.len()
        invariant
            0 <= i <= calls@.len(),
            cv == calls@.map_values(|c: (&str, &str, &Json)| (c.0@, c.1@, c.2@)),
            call_views(out@) == cv.subrange(0, i as int),
        decreases calls@.len() - i,
    {
        let c = calls[i];
        let ghost prev = out@;
        out.push((String::from_str(c.0), String::from_str(c.1), c.2.clone()));
        assert(call_views(out@) =~= call_views(prev).push(cv[i as int]));
        assert(cv.subrange(0, i + 1) =~= cv.subrange(0, i as int).push(cv[i as int]));
        i = i + 1;
    }
    assert(cv.subrange(0, cv.len() as int) =~= cv);
    out
}

impl AgentLoop {
    /// The output of a run that ends on the last message of the transcript.
    fn finish_output(&self) -> (r: RunOutput)
        requires
            self.messages@.len() > 0,
        ensures
            is_run_output(r, self.agent_name(), self.transcript()),
    {
        let last = self.messages.len() - 1;
        RunOutput {
            message: self.messages[last].clone(),
            agent_name: self.agent.name.clone(),
            messages: clone_messages(self.messages.as_slice()),
            metadata: Vec::new(),
        }
    }

    /// Takes the LLM's reply. The reply joins the transcript; without tool
    /// calls it is the final answer, which goes through the output
    /// guardrails when they are on; otherwise its tool calls become pending.
    pub fn llm_replied(&mut self, response: CompletionResponse) -> (r: Step)
        requires
            old(self).wf(),
            old(self).phase() == LoopPhase::AwaitingLlm,
        ensures
            final(self).wf(),
            final(self).same_run(*old(self)),
            final(self).transcript() == old(self).transcript().push(response.message@),
            final(self).iterations() == old(self).iterations(),
            r.events@.len() == 1,
            r.events@[0] matches RunEvent::LlmEnd { model, usage } && model@ == response.model@
                && usage == response.usage,
            tool_calls_of(response.message@.content).len() == 0 && old(self).checks_output() ==> {
                &&& final(self).phase() == LoopPhase::AwaitingOutputCheck
                &&& r.action matches LoopAction::CheckOutput(m)
                &&& m@ == response.message@
            },
            tool_calls_of(response.message@.content).len() == 0 && !old(self).checks_output() ==> {
                &&& final(self).phase() == LoopPhase::Done
                &&& r.action matches LoopAction::Finish(out)
                &&& is_run_output(out, old(self).agent_name(), final(self).transcript())
            },
            // At most `max_tool_calls_per_turn` calls of the reply are
            // executed: the first ones; the rest are dropped.
            tool_calls_of(response.message@.content).len() > 0 ==> {
                &&& final(self).phase() == LoopPhase::Ready
                &&& final(self).pending() == first_calls(
                    tool_calls_of(response.message@.content),
                    old(self).max_tool_calls(),
                )
                &&& r.action is Continue
            },
    {
        let ghost t = views(self.messages@);
        let ghost mv = response.message@;
        let ev = RunEvent::LlmEnd { model: response.model, usage: response.usage };
        let mut events: Vec<RunEvent> = Vec::new();
        events.push(ev);
        let calls = own_calls(&response.message);
        let ghost prev = self.messages@;
        if calls.len() == 0 {
            if self.config.enable_output_guardrails {
                let m = response.message.clone();
                self.messages.push(response.message);
                assert(views(self.messages@) =~= t.push(mv));
                self.phase = LoopPhase::AwaitingOutputCheck;
                Step { events, action: LoopAction::CheckOutput(m) }
            } else {
                self.messages.push(response.message);
                assert(views(self.messages@) =~= t.push(mv));
                self.phase = LoopPhase::Done;
                let out = self.finish_output();
                Step { events, action: LoopAction::Finish(out) }
            }
        } else {
            let mut calls = calls;
            let ghost all_calls = call_views(calls@);
            calls.truncate(self.config.max_tool_calls_per_turn);
            assert(call_views(calls@) =~= first_calls(all_calls, self.config.max_tool_calls_per_turn as nat));
            self.messages.push(response.message);
            assert(views(self.messages@) =~= t.push(mv));
            self.calls = calls;
            self.next_call = 0;
            self.phase = LoopPhase::Ready;
            assert(call_views(self.calls@).subrange(0, self.calls@.len() as int) =~= call_views(
                self.calls@,
            ));
            Step { events, action: LoopAction::Continue }
        }
    }

    /// Takes the failure of the LLM call: the run fails with it.
    pub fn llm_failed(&mut self, error: ProviderError) -> (r: Step)
        requires
            old(self).wf(),
            old(self).phase() == LoopPhase::AwaitingLlm,
        ensures
            final(self).wf(),
            final(self).same_run(*old(self)),
            final(self).transcript() == old(self).transcript(),
            final(self).iterations() == old(self).iterations(),
            final(self).phase() == LoopPhase::Done,
            r.events@.len() == 0,
            r.action matches LoopAction::Fail(LortexError::Provider(e)) && e == error,
    {
        self.phase = LoopPhase::Done;
        Step { events: Vec::new(), action: LoopAction::Fail(LortexError::Provider(error)) }
    }

    /// Takes the output of the running tool: it joins the transcript as the
    /// result of its call.
    pub fn tool_finished(&mut self, output: ToolOutput) -> (r: Step)
        requires
            old(self).wf(),
            old(self).phase() == LoopPhase::AwaitingTool,
        ensures
            final(self).wf(),
            final(self).same_run(*old(self)),
            final(self).iterations() == old(self).iterations(),
            final(self).phase() == LoopPhase::Ready,
            old(self).pending().len() > 0,
            final(self).pending() == old(self).pending().drop_first(),
            final(self).transcript().len() == old(self).transcript().len() + 1,
            final(self).transcript().subrange(0, old(self).transcript().len() as int) == old(
                self,
            ).transcript(),
            is_tool_result(
                final(self).transcript().last(),
                old(self).pending()[0].0,
                output.content@,
                output.is_error,
            ),
            r.events@.len() == 1,
            r.events@[0] matches RunEvent::ToolEnd { name, output: o, is_error } && name@ == old(
                self,
            ).pending()[0].1 && o@ == output.content@ && is_error == output.is_error,
            r.action is Continue,
    {
        let ghost t = views(self.messages@);
        let ghost cv = call_views(self.calls@);
        let nc = self.next_call;
        let count = self.calls.len();
        assert(nc < count);
        assert(cv.subrange(nc as int, cv.len() as int)[0] == cv[nc as int]);
        let ev = RunEvent::ToolEnd {
            name: self.calls[nc].1.clone(),
            output: output.content.clone(),
            is_error: output.is_error,
        };
        let ghost prev = self.messages@;
        let m = Message::tool_result(self.calls[nc].0.as_str(), output.content, output.is_error);
        self.messages.push(m);
        assert(views(self.messages@) =~= views(prev).push(self.messages@.last()@));
        assert(views(self.messages@).subrange(0, t.len() as int) =~= t);
        self.next_call = nc + 1;
        self.phase = LoopPhase::Ready;
        assert(cv.subrange(nc + 1, cv.len() as int) =~= cv.subrange(nc as int, cv.len() as int).drop_first());
        let mut events: Vec<RunEvent> = Vec::new();
        events.push(ev);
        Step { events, action: LoopAction::Continue }
    }

    /// Takes the output guardrails' verdict on the final answer: the first
    /// block's message, if any guardrail blocked it. A block fails the run;
    /// otherwise the run succeeds with the final answer.
    pub fn output_checked(&mut self, blocked: Option<String>) -> (r: Step)
        requires
            old(self).wf(),
            old(self).phase() == LoopPhase::AwaitingOutputCheck,
        ensures
            final(self).wf(),
            final(self).same_run(*old(self)),
            final(self).transcript() == old(self).transcript(),
            final(self).iterations() == old(self).iterations(),
            final(self).phase() == LoopPhase::Done,
            r.events@.len() == 0,
            match blocked {
                Some(b) => r.action matches LoopAction::Fail(
                    LortexError::Agent(AgentError::GuardrailBlocked(m)),
                ) && m@ == b@,
                None => r.action matches LoopAction::Finish(out) && is_run_output(
                    out,
                    old(self).agent_name(),
                    old(self).transcript(),
                ),
            },
    {
        self.phase = LoopPhase::Done;
        match blocked {
            Some(b) => Step {
                events: Vec::new(),
                action: LoopAction::Fail(LortexError::Agent(AgentError::GuardrailBlocked(b))),
            },
            None => {
                let out = self.finish_output();
                Step { events: Vec::new(), action: LoopAction::Finish(out) }
            },
        }
    }
}

/// The runner: a provider, a configuration and event handlers. It is
/// generic over the handles of its provider `P` and event handlers `E`,
/// which it carries without inspecting.
#[derive(Debug)]
pub struct Runner<P, E> {
    provider: P,
    config: RunnerConfig,
    event_handlers: Vec<E>,
}

impl<P, E> Runner<P, E> {
    /// The runner's provider.
    pub closed spec fn spec_provider(&self) -> P {
        self.provider
    }

    /// The runner's configuration.
    pub closed spec fn spec_config(&self) -> RunnerConfig {
        self.config
    }

    /// The runner's event handlers.
    pub closed spec fn spec_handlers(&self) -> Seq<E> {
        self.event_handlers@
    }

    /// A runner for `provider` with the default configuration and no event
    /// handler.
    pub fn new(provider: P) -> (r: Runner<P, E>)
        ensures
            r.spec_provider() == provider,
            r.spec_config().max_iterations == 10,
            r.spec_config().max_tool_calls_per_turn == 20,
            r.spec_config().enable_input_guardrails,
            r.spec_config().enable_output_guardrails,
            r.spec_handlers().len() == 0,
    {
        Runner { provider, config: RunnerConfig::default(), event_handlers: Vec::new() }
    }

    /// A builder of runners.
    pub fn builder() -> (r: RunnerBuilder<P, E>)
        ensures
            r.given_provider() is None,
            r.given_config().max_iterations == 10,
            r.given_config().max_tool_calls_per_turn == 20,
            r.given_config().enable_input_guardrails,
            r.given_config().enable_output_guardrails,
            r.given_handlers().len() == 0,
    {
        RunnerBuilder::new()
    }

    /// The runner's provider.
    pub fn provider(&self) -> (r: &P)
        ensures
            *r == self.spec_provider(),
    {
        &self.provider
    }

    /// The runner's configuration.
    pub fn config(&self) -> (r: RunnerConfig)
        ensures
            r == self.spec_config(),
    {
        self.config
    }

    /// The runner's event handlers.
    pub fn event_handlers(&self) -> (r: &Vec<E>)
        ensures
            r@ == self.spec_handlers(),
    {
        &self.event_handlers
    }
}

/// Builder of a [`Runner`].
#[derive(Debug)]
pub struct RunnerBuilder<P, E> {
    provider: Option<P>,
    config: RunnerConfig,
    event_handlers: Vec<E>,
}

impl<P, E> RunnerBuilder<P, E> {
    /// The provider given so far.
    pub closed spec fn given_provider(&self) -> Option<P> {
        self.provider
    }

    /// The configuration given so far.
    pub closed spec fn given_config(&self) -> RunnerConfig {
        self.config
    }

    /// The event handlers given so far.
    pub closed spec fn given_handlers(&self) -> Seq<E> {
        self.event_handlers@
    }

    /// A builder with no provider, the default configuration and no event
    /// handler.
    pub fn new() -> (r: RunnerBuilder<P, E>)
        ensures
            r.given_provider() is None,
            r.given_config().max_iterations == 10,
            r.given_config().max_tool_calls_per_turn == 20,
            r.given_config().enable_input_guardrails,
            r.given_config().enable_output_guardrails,
            r.given_handlers().len() == 0,
    {
        RunnerBuilder { provider: None, config: RunnerConfig::default(), event_handlers: Vec::new() }
    }

    /// Sets the provider.
    pub fn provider(self, provider: P) -> (r: RunnerBuilder<P, E>)
        ensures
            r.given_provider() == Some(provider),
            r.given_config() == self.given_config(),
            r.given_handlers() == self.given_handlers(),
    {
        let mut b = self;
        b.provider = Some(provider);
        b
    }

    /// Sets the whole configuration.
    pub fn config(self, config: RunnerConfig) -> (r: RunnerBuilder<P, E>)
        ensures
            r.given_provider() == self.given_provider(),
            r.given_config() == config,
            r.given_handlers() == self.given_handlers(),
    {
        let mut b = self;
        b.config = config;
        b
    }

    /// Sets the maximum number of iterations.
    pub fn max_iterations(self, max: usize) -> (r: RunnerBuilder<P, E>)
        ensures
            r.given_provider() == self.given_provider(),
            r.given_config() == (RunnerConfig { max_iterations: max, ..self.given_config() }),
            r.given_handlers() == self.given_handlers(),
    {
        let mut b = self;
        b.config.max_iterations = max;
        b
    }

    /// Sets the maximum number of tool calls per turn.
    pub fn max_tool_calls_per_turn(self, max: usize) -> (r: RunnerBuilder<P, E>)
        ensures
            r.given_provider() == self.given_provider(),
            r.given_config() == (RunnerConfig { max_tool_calls_per_turn: max, ..self.given_config() }),
            r.given_handlers() == self.given_handlers(),
    {
        let mut b = self;
        b.config.max_tool_calls_per_turn = max;
        b
    }

    /// Adds an event handler.
    pub fn event_handler(self, handler: E) -> (r: RunnerBuilder<P, E>)
        ensures
            r.given_provider() == self.given_provider(),
            r.given_config() == self.given_config(),
            r.given_handlers() == self.given_handlers().push(handler),
    {
        let mut b = self;
        b.event_handlers.push(handler);
        b
    }

    /// Builds the runner; a provider is required.
    pub fn build(self) -> (r: Result<Runner<P, E>, String>)
        ensures
            match self.given_provider() {
                None => r matches Err(m) && m@ == "Provider is required"@,
                Some(p) => r matches Ok(runner) && runner.spec_provider() == p
                    && runner.spec_config() == self.given_config() && runner.spec_handlers()
                    == self.given_handlers(),
            },
    {
        match self.provider {
            None => Err(String::from_str("Provider is required")),
            Some(p) => Ok(Runner { provider: p, config: self.config, event_handlers: self.event_handlers }),
        }
    }
}

impl<P, E> Default for RunnerBuilder<P, E> {
    fn default() -> (r: RunnerBuilder<P, E>)
        ensures
            r.given_provider() is None,
            r.given_config().max_iterations == 10,
            r.given_handlers().len() == 0,
    {
        RunnerBuilder::new()
    }
}

} // verus!
