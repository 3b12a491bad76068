//! Agent configuration: run inputs and outputs, the run context, and the
//! builder of simple agents.
//!
//! Agents are declarative configurations consumed by the runner. The agent
//! types here are generic over the handles of the agent's tools `T`,
//! handoffs `H`, guardrails `G` and lifecycle hooks `K`, which they carry
//! without inspecting.

use vstd::prelude::*;
use crate::json::Json;
use crate::message::{Message, MessageView};

verus! {

/// Input to an agent run.
#[derive(Debug)]
pub enum RunInput {
    /// A simple text input.
    Text(String),
    /// One or more messages.
    Messages(Vec<Message>),
}

impl From<String> for RunInput {
    fn from(s: String) -> (r: RunInput) {
        RunInput::Text(s)
    }
}

impl vstd::std_specs::convert::FromSpecImpl<String> for RunInput {
    open spec fn obeys_from_spec() -> bool {
        true
    }

    open spec fn from_spec(s: String) -> RunInput {
        RunInput::Text(s)
    }
}

impl From<Vec<Message>> for RunInput {
    fn from(msgs: Vec<Message>) -> (r: RunInput) {
        RunInput::Messages(msgs)
    }
}

impl vstd::std_specs::convert::FromSpecImpl<Vec<Message>> for RunInput {
    open spec fn obeys_from_spec() -> bool {
        true
    }

    open spec fn from_spec(msgs: Vec<Message>) -> RunInput {
        RunInput::Messages(msgs)
    }
}

impl RunInput {
    /// A text input.
    pub fn text(s: &str) -> (r: RunInput)
        ensures
            r matches RunInput::Text(t) && t@ == s@,
    {
        RunInput::Text(String::from_str(s))
    }
}

/// Output of an agent run.
#[derive(Debug)]
pub struct RunOutput {
    /// The final response message.
    pub message: Message,
    /// The agent that produced this output.
    pub agent_name: String,
    /// All messages of the conversation, including intermediate tool calls.
    pub messages: Vec<Message>,
    /// Metadata about the run.
    pub metadata: Vec<(String, Json)>,
}

/// Context available during an agent run.
#[derive(Debug)]
pub struct RunContext {
    /// Current session id.
    pub session_id: String,
    /// The conversation messages accumulated so far.
    pub messages: Vec<Message>,
    /// Arbitrary context data.
    pub data: Vec<(String, Json)>,
}

impl RunContext {
    /// An empty context for session `session_id`.
    pub fn new(session_id: &str) -> (r: RunContext)
        ensures
            r.session_id@ == session_id@,
            r.messages@.len() == 0,
            r.data@.len() == 0,
    {
        RunContext { session_id: String::from_str(session_id), messages: Vec::new(), data: Vec::new() }
    }
}

/// The tool name under which the LLM sees a handoff to agent `target`.
pub open spec fn handoff_tool_name(target: Seq<char>) -> Seq<char> {
    "transfer_to_"@ + target
}

/// The description of a handoff to agent `target`.
pub open spec fn handoff_tool_description(target: Seq<char>) -> Seq<char> {
    "Hand off the conversation to the "@ + target + " agent."@
}

/// The tool name of a handoff to agent `target`.
pub fn handoff_name_for(target: &str) -> (r: String)
    ensures
        r@ == handoff_tool_name(target@),
{
    String::from_str("transfer_to_").concat(target)
}

/// The description of a handoff to agent `target`.
pub fn handoff_description_for(target: &str) -> (r: String)
    ensures
        r@ == handoff_tool_description(target@),
{
    String::from_str("Hand off the conversation to the ").concat(target).concat(" agent.")
}

/// An agent defined by its configuration.
#[derive(Debug)]
pub struct SimpleAgent<T, H, G, K> {
    name: String,
    instructions: String,
    model: String,
    tools: Vec<T>,
    handoffs: Vec<H>,
    input_guardrails: Vec<G>,
    output_guardrails: Vec<G>,
    hooks: Option<K>,
}

impl<T, H, G, K> SimpleAgent<T, H, G, K> {
    /// The agent's name.
    pub closed spec fn spec_name(&self) -> Seq<char> {
        self.name@
    }

    /// The agent's instructions.
    pub closed spec fn spec_instructions(&self) -> Seq<char> {
        self.instructions@
    }

    /// The agent's model.
    pub closed spec fn spec_model(&self) -> Seq<char> {
        self.model@
    }

    /// The agent's tools.
    pub closed spec fn spec_tools(&self) -> Seq<T> {
        self.tools@
    }

    /// The agent's handoffs.
    pub closed spec fn spec_handoffs(&self) -> Seq<H> {
        self.handoffs@
    }

    /// The agent's input guardrails.
    pub closed spec fn spec_input_guardrails(&self) -> Seq<G> {
        self.input_guardrails@
    }

    /// The agent's output guardrails.
    pub closed spec fn spec_output_guardrails(&self) -> Seq<G> {
        self.output_guardrails@
    }

    /// The agent's hooks.
    pub closed spec fn spec_hooks(&self) -> Option<K> {
        self.hooks
    }

    /// Unique name of the agent.
    pub fn name(&self) -> (r: &str)
        ensures
            r@ == self.spec_name(),
    {
        self.name.as_str()
    }

    /// System instructions.
    pub fn instructions(&self) -> (r: &str)
        ensures
            r@ == self.spec_instructions(),
    {
        self.instructions.as_str()
    }

    /// Model identifier.
    pub fn model(&self) -> (r: &str)
        ensures
            r@ == self.spec_model(),
    {
        self.model.as_str()
    }

    /// Available tools.
    pub fn tools(&self) -> (r: &Vec<T>)
        ensures
            r@ == self.spec_tools(),
    {
        &self.tools
    }

    /// Agents this agent can hand off to.
    pub fn handoffs(&self) -> (r: &Vec<H>)
        ensures
            r@ == self.spec_handoffs(),
    {
        &self.handoffs
    }

    /// Input guardrails.
    pub fn input_guardrails(&self) -> (r: &Vec<G>)
        ensures
            r@ == self.spec_input_guardrails(),
    {
        &self.input_guardrails
    }

    /// Output guardrails.
    pub fn output_guardrails(&self) -> (r: &Vec<G>)
        ensures
            r@ == self.spec_output_guardrails(),
    {
        &self.output_guardrails
    }

    /// Lifecycle hooks.
    pub fn hooks(&self) -> (r: &Option<K>)
        ensures
            *r == self.spec_hooks(),
    {
        &self.hooks
    }
}

/// Builder of a [`SimpleAgent`].
#[derive(Debug)]
pub struct AgentBuilder<T, H, G, K> {
    name: Option<String>,
    instructions: Option<String>,
    model: Option<String>,
    tools: Vec<T>,
    handoffs: Vec<H>,
    input_guardrails: Vec<G>,
    output_guardrails: Vec<G>,
    hooks: Option<K>,
}

/// The view of an optional text.
pub open spec fn opt_view(o: Option<String>) -> Option<Seq<char>> {
    match o {
        Some(s) => Some(s@),
        None => None,
    }
}

impl<T, H, G, K> AgentBuilder<T, H, G, K> {
    /// The name given so far.
    pub closed spec fn given_name(&self) -> Option<Seq<char>> {
        opt_view(self.name)
    }

    /// The instructions given so far.
    pub closed spec fn given_instructions(&self) -> Option<Seq<char>> {
        opt_view(self.instructions)
    }

    /// The model given so far.
    pub closed spec fn given_model(&self) -> Option<Seq<char>> {
        opt_view(self.model)
    }

    /// The tools given so far.
    pub closed spec fn given_tools(&self) -> Seq<T> {
        self.tools@
    }

    /// The handoffs given so far.
    pub closed spec fn given_handoffs(&self) -> Seq<H> {
        self.handoffs@
    }

    /// The input guardrails given so far.
    pub closed spec fn given_input_guardrails(&self) -> Seq<G> {
        self.input_guardrails@
    }

    /// The output guardrails given so far.
    pub closed spec fn given_output_guardrails(&self) -> Seq<G> {
        self.output_guardrails@
    }

    /// The hooks given so far.
    pub closed spec fn given_hooks(&self) -> Option<K> {
        self.hooks
    }

    /// Whether `self` and `other` agree on everything but the fields the
    /// caller names as changed.
    pub open spec fn same_lists(&self, other: &Self) -> bool {
        &&& self.given_tools() == other.given_tools()
        &&& self.given_handoffs() == other.given_handoffs()
        &&& self.given_input_guardrails() == other.given_input_guardrails()
        &&& self.given_output_guardrails() == other.given_output_guardrails()
        &&& self.given_hooks() == other.given_hooks()
    }

    /// Whether `self` and `other` agree on name, instructions and model.
    pub open spec fn same_texts(&self, other: &Self) -> bool {
        &&& self.given_name() == other.given_name()
        &&& self.given_instructions() == other.given_instructions()
        &&& self.given_model() == other.given_model()
    }

    /// An empty builder.
    pub fn new() -> (r: AgentBuilder<T, H, G, K>)
        ensures
            r.given_name() is None,
            r.given_instructions() is None,
            r.given_model() is None,
            r.given_tools().len() == 0,
            r.given_handoffs().len() == 0,
            r.given_input_guardrails().len() == 0,
            r.given_output_guardrails().len() == 0,
            r.given_hooks() is None,
    {
        AgentBuilder {
            name: None,
            instructions: None,
            model: None,
            tools: Vec::new(),
            handoffs: Vec::new(),
            input_guardrails: Vec::new(),
            output_guardrails: Vec::new(),
            hooks: None,
        }
    }

    /// Sets the agent's name.
    pub fn name(self, name: &str) -> (r: AgentBuilder<T, H, G, K>)
        ensures
            r.given_name() == Some(name@),
            r.given_instructions() == self.given_instructions(),
            r.given_model() == self.given_model(),
            r.same_lists(&self),
    {
        let mut b = self;
        b.name = Some(String::from_str(name));
        b
    }

    /// Sets the agent's instructions.
    pub fn instructions(self, instructions: &str) -> (r: AgentBuilder<T, H, G, K>)
        ensures
            r.given_instructions() == Some(instructions@),
            r.given_name() == self.given_name(),
            r.given_model() == self.given_model(),
            r.same_lists(&self),
    {
        let mut b = self;
        b.instructions = Some(String::from_str(instructions));
        b
    }

    /// Sets the agent's model.
    pub fn model(self, model: &str) -> (r: AgentBuilder<T, H, G, K>)
        ensures
            r.given_model() == Some(model@),
            r.given_name() == self.given_name(),
            r.given_instructions() == self.given_instructions(),
            r.same_lists(&self),
    {
        let mut b = self;
        b.model = Some(String::from_str(model));
        b
    }

    /// Adds a tool.
    pub fn tool(self, tool: T) -> (r: AgentBuilder<T, H, G, K>)
        ensures
            r.given_tools() == self.given_tools().push(tool),
            r.same_texts(&self),
            r.given_handoffs() == self.given_handoffs(),
            r.given_input_guardrails() == self.given_input_guardrails(),
            r.given_output_guardrails() == self.given_output_guardrails(),
            r.given_hooks() == self.given_hooks(),
    {
        let mut b = self;
        b.tools.push(tool);
        b
    }

    /// Adds several tools.
    pub fn tools(self, tools: Vec<T>) -> (r: AgentBuilder<T, H, G, K>)
        ensures
            r.given_tools() == self.given_tools() + tools@,
            r.same_texts(&self),
            r.given_handoffs() == self.given_handoffs(),
            r.given_input_guardrails() == self.given_input_guardrails(),
            r.given_output_guardrails() == self.given_output_guardrails(),
            r.given_hooks() == self.given_hooks(),
    {
        let mut b = self;
        let mut more = tools;
        b.tools.append(&mut more);
        b
    }

    /// Adds a handoff.
    pub fn handoff(self, handoff: H) -> (r: AgentBuilder<T, H, G, K>)
        ensures
            r.given_handoffs() == self.given_handoffs().push(handoff),
            r.same_texts(&self),
            r.given_tools() == self.given_tools(),
            r.given_input_guardrails() == self.given_input_guardrails(),
            r.given_output_guardrails() == self.given_output_guardrails(),
            r.given_hooks() == self.given_hooks(),
    {
        let mut b = self;
        b.handoffs.push(handoff);
        b
    }

    /// Adds an input guardrail.
    pub fn input_guardrail(self, guardrail: G) -> (r: AgentBuilder<T, H, G, K>)
        ensures
            r.given_input_guardrails() == self.given_input_guardrails().push(guardrail),
            r.same_texts(&self),
            r.given_tools() == self.given_tools(),
            r.given_handoffs() == self.given_handoffs(),
            r.given_output_guardrails() == self.given_output_guardrails(),
            r.given_hooks() == self.given_hooks(),
    {
        let mut b = self;
        b.input_guardrails.push(guardrail);
        b
    }

    /// Adds an output guardrail.
    pub fn output_guardrail(self, guardrail: G) -> (r: AgentBuilder<T, H, G, K>)
        ensures
            r.given_output_guardrails() == self.given_output_guardrails().push(guardrail),
            r.same_texts(&self),
            r.given_tools() == self.given_tools(),
            r.given_handoffs() == self.given_handoffs(),
            r.given_input_guardrails() == self.given_input_guardrails(),
            r.given_hooks() == self.given_hooks(),
    {
        let mut b = self;
        b.output_guardrails.push(guardrail);
        b
    }

    /// Sets the lifecycle hooks.
    pub fn hooks(self, hooks: K) -> (r: AgentBuilder<T, H, G, K>)
        ensures
            r.given_hooks() == Some(hooks),
            r.same_texts(&self),
            r.given_tools() == self.given_tools(),
            r.given_handoffs() == self.given_handoffs(),
            r.given_input_guardrails() == self.given_input_guardrails(),
            r.given_output_guardrails() == self.given_output_guardrails(),
    {
        let mut b = self;
        b.hooks = Some(hooks);
        b
    }

    /// Builds the agent. A name and a model are required; instructions
    /// default to empty.
    pub fn build(self) -> (r: Result<SimpleAgent<T, H, G, K>, String>)
        ensures
            self.given_name() is None ==> (r matches Err(m) && m@ == "Agent name is required"@),
            self.given_name() is Some && self.given_model() is None ==> (r matches Err(m) && m@
                == "Agent model is required"@),
            self.given_name() is Some && self.given_model() is Some ==> (r matches Ok(a) && {
                &&& a.spec_name() == self.given_name().unwrap()
                &&& a.spec_model() == self.given_model().unwrap()
                &&& a.spec_instructions() == match self.given_instructions() {
                    Some(i) => i,
                    None => Seq::<char>::empty(),
                }
                &&& a.spec_tools() == self.given_tools()
                &&& a.spec_handoffs() == self.given_handoffs()
                &&& a.spec_input_guardrails() == self.given_input_guardrails()
                &&& a.spec_output_guardrails() == self.given_output_guardrails()
                &&& a.spec_hooks() == self.given_hooks()
            }),
    {
        let name = match self.name {
            Some(n) => n,
            None => {
                return Err(String::from_str("Agent name is required"));
            },
        };
        let model = match self.model {
            Some(m) => m,
            None => {
                return Err(String::from_str("Agent model is required"));
            },
        };
        let instructions = match self.instructions {
            Some(i) => i,
            None => String::new(),
        };
        Ok(
            SimpleAgent {
                name,
                instructions,
                model,
                tools: self.tools,
                handoffs: self.handoffs,
                input_guardrails: self.input_guardrails,
                output_guardrails: self.output_guardrails,
                hooks: self.hooks,
            },
        )
    }
}

impl<T, H, G, K> Default for AgentBuilder<T, H, G, K> {
    fn default() -> (r: AgentBuilder<T, H, G, K>)
        ensures
            r.given_name() is None,
            r.given_instructions() is None,
            r.given_model() is None,
            r.given_tools().len() == 0,
            r.given_handoffs().len() == 0,
            r.given_input_guardrails().len() == 0,
            r.given_output_guardrails().len() == 0,
            r.given_hooks() is None,
    {
        AgentBuilder::new()
    }
}

} // verus!
