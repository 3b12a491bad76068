//! Events emitted during an agent run, for streaming, logging and tracing.

use vstd::prelude::*;
use crate::json::Json;
use crate::provider::Usage;

verus! {

/// Events emitted during an agent run.
#[derive(Debug)]
pub enum RunEvent {
    /// An agent has started processing.
    AgentStart { agent: String },
    /// An agent has finished processing.
    AgentEnd { agent: String },
    /// An LLM call has started.
    LlmStart { model: String, message_count: usize },
    /// A streaming text chunk from the LLM.
    LlmChunk { delta: String },
    /// An LLM call has completed.
    LlmEnd { model: String, usage: Option<Usage> },
    /// A tool call has started.
    ToolStart { name: String, args: Json },
    /// A tool call has completed.
    ToolEnd { name: String, output: Json, is_error: bool },
    /// An agent handoff has occurred.
    Handoff { from: String, to: String, reason: String },
    /// A guardrail check was triggered.
    GuardrailTriggered { name: String, passed: bool, message: Option<String> },
    /// Messages were stored to memory.
    MemoryStore { session_id: String, count: usize },
    /// Messages were retrieved from memory.
    MemoryRetrieve { session_id: String, count: usize },
    /// An error occurred during the run.
    Error { message: String },
}

/// The severity at which a run event is logged.
#[derive(Debug, Clone, Copy, PartialEq, Eq, Structural)]
pub enum LogLevel {
    Trace,
    Debug,
    Info,
    Warn,
    Error,
}

/// The severity of an event: streamed chunks are traced, guardrail
/// triggers warned about, errors logged as errors, memory traffic debugged,
/// and the rest of the run's progress logged as information.
pub open spec fn level_of(event: RunEvent) -> LogLevel {
    match event {
        RunEvent::LlmChunk { .. } => LogLevel::Trace,
        RunEvent::GuardrailTriggered { .. } => LogLevel::Warn,
        RunEvent::Error { .. } => LogLevel::Error,
        RunEvent::MemoryStore { .. } | RunEvent::MemoryRetrieve { .. } => LogLevel::Debug,
        _ => LogLevel::Info,
    }
}

/// The headline under which an event is logged.
pub open spec fn headline_of(event: RunEvent) -> Seq<char> {
    match event {
        RunEvent::AgentStart { .. } => "Agent started"@,
        RunEvent::AgentEnd { .. } => "Agent ended"@,
        RunEvent::LlmStart { .. } => "LLM call started"@,
        RunEvent::LlmChunk { .. } => "LLM chunk"@,
        RunEvent::LlmEnd { .. } => "LLM call ended"@,
        RunEvent::ToolStart { .. } => "Tool call started"@,
        RunEvent::ToolEnd { .. } => "Tool call ended"@,
        RunEvent::Handoff { .. } => "Agent handoff"@,
        RunEvent::GuardrailTriggered { .. } => "Guardrail triggered"@,
        RunEvent::Error { .. } => "Run error"@,
        _ => "Run event"@,
    }
}

/// The event handler that logs every event; it decides the severity and
/// headline of each, and the logging backend writes them.
#[derive(Debug, Clone, Copy)]
pub struct TracingEventHandler;

impl TracingEventHandler {
    /// The severity at which `event` is logged.
    pub fn level(&self, event: &RunEvent) -> (r: LogLevel)
        ensures
            r == level_of(*event),
    {
        match event {
            RunEvent::LlmChunk { .. } => LogLevel::Trace,
            RunEvent::GuardrailTriggered { .. } => LogLevel::Warn,
            RunEvent::Error { .. } => LogLevel::Error,
            RunEvent::MemoryStore { .. } | RunEvent::MemoryRetrieve { .. } => LogLevel::Debug,
            _ => LogLevel::Info,
        }
    }

    /// The headline under which `event` is logged.
    pub fn headline(&self, event: &RunEvent) -> (r: &'static str)
        ensures
            r@ == headline_of(*event),
    {
        match event {
            RunEvent::AgentStart { .. } => "Agent started",
            RunEvent::AgentEnd { .. } => "Agent ended",
            RunEvent::LlmStart { .. } => "LLM call started",
            RunEvent::LlmChunk { .. } => "LLM chunk",
            RunEvent::LlmEnd { .. } => "LLM call ended",
            RunEvent::ToolStart { .. } => "Tool call started",
            RunEvent::ToolEnd { .. } => "Tool call ended",
            RunEvent::Handoff { .. } => "Agent handoff",
            RunEvent::GuardrailTriggered { .. } => "Guardrail triggered",
            RunEvent::Error { .. } => "Run error",
            _ => "Run event",
        }
    }
}

} // verus!
