//! Requests, responses and capabilities exchanged with LLM providers.

use vstd::prelude::*;
use crate::json::{Json, JsonView};
use crate::message::Message;

verus! {

/// A tool definition sent to the LLM.
#[derive(Debug)]
pub struct ToolDefinition {
    pub name: String,
    pub description: String,
    /// JSON Schema of the tool's parameters.
    pub parameters: Json,
}

impl View for ToolDefinition {
    type V = (Seq<char>, Seq<char>, JsonView);

    open spec fn view(&self) -> (Seq<char>, Seq<char>, JsonView) {
        (self.name@, self.description@, self.parameters@)
    }
}

impl Clone for ToolDefinition {
    fn clone(&self) -> (r: ToolDefinition)
        ensures
            r@ == self@,
    {
        ToolDefinition {
            name: self.name.clone(),
            description: self.description.clone(),
            parameters: self.parameters.clone(),
        }
    }
}

/// A request to an LLM for completion.
#[derive(Debug)]
pub struct CompletionRequest {
    /// The model identifier (e.g. "gpt-4o").
    pub model: String,
    /// The conversation messages.
    pub messages: Vec<Message>,
    /// Tool definitions available to the model.
    pub tools: Vec<ToolDefinition>,
    /// Sampling temperature (0.0 - 2.0), as its decimal text.
    pub temperature: String,
    /// Maximum number of tokens to generate.
    pub max_tokens: Option<u32>,
    /// Stop sequences.
    pub stop: Vec<String>,
    /// Additional provider-specific parameters.
    pub extra: Json,
}

/// Token usage statistics.
#[derive(Debug, Clone, Copy, PartialEq, Eq, Structural)]
pub struct Usage {
    pub prompt_tokens: u32,
    pub completion_tokens: u32,
    pub total_tokens: u32,
    pub cache_creation_input_tokens: u32,
    pub cache_read_input_tokens: u32,
}

/// Reason the model stopped generating.
#[derive(Debug, Clone, Copy, PartialEq, Eq, Structural)]
pub enum FinishReason {
    Stop,
    ToolCalls,
    Length,
    ContentFilter,
}

/// A response from an LLM completion.
#[derive(Debug)]
pub struct CompletionResponse {
    /// The generated message (text and/or tool calls).
    pub message: Message,
    /// Usage statistics.
    pub usage: Option<Usage>,
    /// Why generation stopped.
    pub finish_reason: Option<FinishReason>,
    /// Model used for this completion.
    pub model: String,
}

/// A streaming event from an LLM.
#[derive(Debug)]
pub enum StreamEvent {
    /// A chunk of text content.
    ContentDelta { delta: String },
    /// Start of a tool call.
    ToolCallStart { index: usize, id: String, name: String },
    /// A chunk of tool call arguments.
    ToolCallDelta { index: usize, arguments_delta: String },
    /// The stream is complete.
    Done { usage: Option<Usage>, finish_reason: Option<FinishReason> },
}

/// The mathematical value of a [`StreamEvent`].
pub enum StreamEventView {
    ContentDelta(Seq<char>),
    ToolCallStart { index: usize, id: Seq<char>, name: Seq<char> },
    ToolCallDelta { index: usize, arguments_delta: Seq<char> },
    Done { usage: Option<Usage>, finish_reason: Option<FinishReason> },
}

/// Whether an event carries no empty text or arguments chunk.
pub open spec fn delta_not_empty(e: StreamEventView) -> bool {
    match e {
        StreamEventView::ContentDelta(d) => d.len() > 0,
        StreamEventView::ToolCallDelta { arguments_delta, .. } => arguments_delta.len() > 0,
        _ => true,
    }
}

/// Whether no event carries an empty text or arguments chunk.
pub open spec fn deltas_not_empty(events: Seq<StreamEventView>) -> bool {
    forall|i: int| 0 <= i < events.len() ==> delta_not_empty(#[trigger] events[i])
}

impl View for StreamEvent {
    type V = StreamEventView;

    open spec fn view(&self) -> StreamEventView {
        match self {
            StreamEvent::ContentDelta { delta } => StreamEventView::ContentDelta(delta@),
            StreamEvent::ToolCallStart { index, id, name } => StreamEventView::ToolCallStart {
                index: *index,
                id: id@,
                name: name@,
            },
            StreamEvent::ToolCallDelta { index, arguments_delta } => StreamEventView::ToolCallDelta {
                index: *index,
                arguments_delta: arguments_delta@,
            },
            StreamEvent::Done { usage, finish_reason } => StreamEventView::Done {
                usage: *usage,
                finish_reason: *finish_reason,
            },
        }
    }
}

/// The views of a list of stream events.
pub open spec fn event_views(events: Seq<StreamEvent>) -> Seq<StreamEventView> {
    events.map_values(|e: StreamEvent| e@)
}

/// A request to generate embeddings.
#[derive(Debug)]
pub struct EmbeddingRequest {
    /// The model identifier (e.g. "text-embedding-3-small").
    pub model: String,
    /// The input texts to embed.
    pub input: Vec<String>,
    /// Output encoding format: "float" (default) or "base64".
    pub encoding_format: Option<String>,
    /// Output vector dimensions (only supported by some models).
    pub dimensions: Option<u32>,
}

/// A single embedding vector.
#[derive(Debug)]
pub struct EmbeddingData {
    /// Index of the input text this embedding corresponds to.
    pub index: usize,
    /// The embedding vector (number array) or base64 string.
    pub embedding: Json,
}

/// Token usage of an embedding request.
#[derive(Debug, Clone, Copy, PartialEq, Eq, Structural)]
pub struct EmbeddingUsage {
    pub prompt_tokens: u32,
    pub total_tokens: u32,
}

/// A response containing embeddings.
#[derive(Debug)]
pub struct EmbeddingResponse {
    /// The embedding vectors.
    pub data: Vec<EmbeddingData>,
    /// The model used.
    pub model: String,
    /// Token usage.
    pub usage: EmbeddingUsage,
}

/// Capabilities that a provider supports.
#[derive(Debug, Clone, Copy, PartialEq, Eq, Structural)]
pub struct ProviderCapabilities {
    pub streaming: bool,
    pub tool_calling: bool,
    pub vision: bool,
    pub embeddings: bool,
    pub structured_output: bool,
}

impl Default for ProviderCapabilities {
    /// No capability.
    fn default() -> (r: ProviderCapabilities)
        ensures
            !r.streaming && !r.tool_calling && !r.vision && !r.embeddings && !r.structured_output,
    {
        ProviderCapabilities {
            streaming: false,
            tool_calling: false,
            vision: false,
            embeddings: false,
            structured_output: false,
        }
    }
}

/// The capabilities of a group of providers: a capability is offered when
/// any of them offers it.
pub open spec fn any_capability(
    caps: Seq<ProviderCapabilities>,
    f: spec_fn(ProviderCapabilities) -> bool,
) -> bool {
    exists|i: int| 0 <= i < caps.len() && f(#[trigger] caps[i])
}

/// Aggregates the capabilities of several providers: each capability is
/// offered when at least one provider offers it.
pub fn aggregate_capabilities(caps: &Vec<ProviderCapabilities>) -> (r: ProviderCapabilities)
    ensures
        r.streaming == any_capability(caps@, |c: ProviderCapabilities| c.streaming),
        r.tool_calling == any_capability(caps@, |c: ProviderCapabilities| c.tool_calling),
        r.vision == any_capability(caps@, |c: ProviderCapabilities| c.vision),
        r.embeddings == any_capability(caps@, |c: ProviderCapabilities| c.embeddings),
        r.structured_output == any_capability(
            caps@,
            |c: ProviderCapabilities| c.structured_output,
        ),
{
    let mut acc = ProviderCapabilities::default();
    let mut i: usize = 0;
    while i < caps.len()
        invariant
            0 <= i <= caps@.len(),
            acc.streaming == exists|j: int| 0 <= j < i && (#[trigger] caps@[j]).streaming,
            acc.tool_calling == exists|j: int| 0 <= j < i && (#[trigger] caps@[j]).tool_calling,
            acc.vision == exists|j: int| 0 <= j < i && (#[trigger] caps@[j]).vision,
            acc.embeddings == exists|j: int| 0 <= j < i && (#[trigger] caps@[j]).embeddings,
            acc.structured_output == exists|j: int|
                0 <= j < i && (#[trigger] caps@[j]).structured_output,
        decreases caps@.len() - i,
    {
        let c = caps[i];
        acc.streaming = acc.streaming || c.streaming;
        acc.tool_calling = acc.tool_calling || c.tool_calling;
        acc.vision = acc.vision || c.vision;
        acc.embeddings = acc.embeddings || c.embeddings;
        acc.structured_output = acc.structured_output || c.structured_output;
        i = i + 1;
    }
    acc
}

} // verus!
