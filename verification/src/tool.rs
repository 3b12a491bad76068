//! Tool outputs and the context handed to tools.

use vstd::prelude::*;
use crate::error::ToolError;
use crate::json::{Json, JsonView};
use crate::message::Message;

verus! {

/// Context provided to a tool during execution.
#[derive(Debug)]
pub struct ToolContext {
    /// The current session id.
    pub session_id: String,
    /// The agent that invoked the tool.
    pub agent_name: String,
    /// Recent conversation messages.
    pub messages: Vec<Message>,
}

/// Output returned from a tool execution.
#[derive(Debug)]
pub struct ToolOutput {
    /// The result content.
    pub content: Json,
    /// Whether the result represents an error.
    pub is_error: bool,
}

/// An example of tool usage, shown to the LLM.
#[derive(Debug)]
pub struct ToolExample {
    /// What the example demonstrates.
    pub description: String,
    /// Example input arguments.
    pub input: Json,
    /// Example output.
    pub output: Json,
}

impl ToolOutput {
    /// A successful text output.
    pub fn text(text: &str) -> (r: ToolOutput)
        ensures
            r.content@ == JsonView::Str(text@),
            !r.is_error,
    {
        ToolOutput { content: Json::Str(String::from_str(text)), is_error: false }
    }

    /// A successful JSON output.
    pub fn json(value: Json) -> (r: ToolOutput)
        ensures
            r.content@ == value@,
            !r.is_error,
    {
        ToolOutput { content: value, is_error: false }
    }

    /// An error output carrying `message`.
    pub fn error(message: &str) -> (r: ToolOutput)
        ensures
            r.content@ == JsonView::Str(message@),
            r.is_error,
    {
        ToolOutput { content: Json::Str(String::from_str(message)), is_error: true }
    }
}

/// The output recorded for a tool run: the tool's output, or, when it
/// failed, an error output carrying the error's message.
pub fn tool_output_of(outcome: Result<ToolOutput, ToolError>) -> (r: ToolOutput)
    ensures
        match outcome {
            Ok(o) => r.content@ == o.content@ && r.is_error == o.is_error,
            Err(e) => r.content@ == JsonView::Str(e.display()) && r.is_error,
        },
{
    match outcome {
        Ok(o) => o,
        Err(e) => ToolOutput::error(e.to_string().as_str()),
    }
}

/// The outcome of calling a tool the agent does not have.
pub fn missing_tool(name: &str) -> (r: Result<ToolOutput, ToolError>)
    ensures
        r matches Err(ToolError::NotFound(n)) && n@ == name@,
{
    Err(ToolError::NotFound(String::from_str(name)))
}

} // verus!
