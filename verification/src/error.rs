//! Typed errors of the framework.
//!
//! Every error carries a fixed message format; `to_string` renders it and
//! `display` states it.

use vstd::prelude::*;
use crate::text::{decimal, u64_to_decimal};

verus! {

/// Errors originating from agent execution.
#[derive(Debug)]
pub enum AgentError {
    MaxIterationsExceeded(usize),
    HandoffFailed(String),
    AgentNotFound(String),
    GuardrailBlocked(String),
    Other(String),
}

impl AgentError {
    /// The human-readable message of the error.
    pub open spec fn display(&self) -> Seq<char> {
        match self {
            AgentError::MaxIterationsExceeded(n) => "Max iterations ("@ + decimal(*n as nat)
                + ") exceeded"@,
            AgentError::HandoffFailed(s) => "Handoff failed: "@ + s@,
            AgentError::AgentNotFound(s) => "Agent not found: "@ + s@,
            AgentError::GuardrailBlocked(s) => "Guardrail blocked: "@ + s@,
            AgentError::Other(s) => s@,
        }
    }

    /// Renders the error message.
    pub fn to_string(&self) -> (r: String)
        ensures
            r@ == self.display(),
    {
        match self {
            AgentError::MaxIterationsExceeded(n) => {
                let num = u64_to_decimal(*n as u64);
                String::from_str("Max iterations (").concat(num.as_str()).concat(") exceeded")
            },
            AgentError::HandoffFailed(s) => String::from_str("Handoff failed: ").concat(s.as_str()),
            AgentError::AgentNotFound(s) => String::from_str("Agent not found: ").concat(
                s.as_str(),
            ),
            AgentError::GuardrailBlocked(s) => String::from_str("Guardrail blocked: ").concat(
                s.as_str(),
            ),
            AgentError::Other(s) => s.clone(),
        }
    }
}

/// Errors originating from tool execution.
#[derive(Debug)]
pub enum ToolError {
    NotFound(String),
    InvalidArguments(String),
    ExecutionFailed(String),
    PermissionDenied(String),
    Timeout(u64),
}

impl ToolError {
    /// The human-readable message of the error.
    pub open spec fn display(&self) -> Seq<char> {
        match self {
            ToolError::NotFound(s) => "Tool not found: "@ + s@,
            ToolError::InvalidArguments(s) => "Invalid arguments: "@ + s@,
            ToolError::ExecutionFailed(s) => "Execution failed: "@ + s@,
            ToolError::PermissionDenied(s) => "Permission denied: "@ + s@,
            ToolError::Timeout(ms) => "Timeout after "@ + decimal(*ms as nat) + "ms"@,
        }
    }

    /// Renders the error message.
    pub fn to_string(&self) -> (r: String)
        ensures
            r@ == self.display(),
    {
        match self {
            ToolError::NotFound(s) => String::from_str("Tool not found: ").concat(s.as_str()),
            ToolError::InvalidArguments(s) => String::from_str("Invalid arguments: ").concat(
                s.as_str(),
            ),
            ToolError::ExecutionFailed(s) => String::from_str("Execution failed: ").concat(
                s.as_str(),
            ),
            ToolError::PermissionDenied(s) => String::from_str("Permission denied: ").concat(
                s.as_str(),
            ),
            ToolError::Timeout(ms) => {
                let num = u64_to_decimal(*ms);
                String::from_str("Timeout after ").concat(num.as_str()).concat("ms")
            },
        }
    }

    /// A copy of the error.
    pub fn duplicate(&self) -> (r: ToolError)
        ensures
            r == *self,
    {
        match self {
            ToolError::NotFound(s) => ToolError::NotFound(s.clone()),
            ToolError::InvalidArguments(s) => ToolError::InvalidArguments(s.clone()),
            ToolError::ExecutionFailed(s) => ToolError::ExecutionFailed(s.clone()),
            ToolError::PermissionDenied(s) => ToolError::PermissionDenied(s.clone()),
            ToolError::Timeout(ms) => ToolError::Timeout(*ms),
        }
    }
}

/// Errors originating from LLM providers.
#[derive(Debug)]
pub enum ProviderError {
    Api { status: u16, message: String },
    RateLimited { retry_after_ms: u64 },
    Network(String),
    InvalidResponse(String),
    ModelNotSupported(String),
    AuthenticationFailed(String),
}

impl ProviderError {
    /// The human-readable message of the error.
    pub open spec fn display(&self) -> Seq<char> {
        match self {
            ProviderError::Api { status, message } => "API error ("@ + decimal(*status as nat)
                + "): "@ + message@,
            ProviderError::RateLimited { retry_after_ms } => "Rate limited, retry after "@
                + decimal(*retry_after_ms as nat) + "ms"@,
            ProviderError::Network(s) => "Network error: "@ + s@,
            ProviderError::InvalidResponse(s) => "Invalid response: "@ + s@,
            ProviderError::ModelNotSupported(s) => "Model not supported: "@ + s@,
            ProviderError::AuthenticationFailed(s) => "Authentication failed: "@ + s@,
        }
    }

    /// Renders the error message.
    pub fn to_string(&self) -> (r: String)
        ensures
            r@ == self.display(),
    {
        match self {
            ProviderError::Api { status, message } => {
                let num = u64_to_decimal(*status as u64);
                String::from_str("API error (").concat(num.as_str()).concat("): ").concat(
                    message.as_str(),
                )
            },
            ProviderError::RateLimited { retry_after_ms } => {
                let num = u64_to_decimal(*retry_after_ms);
                String::from_str("Rate limited, retry after ").concat(num.as_str()).concat("ms")
            },
            ProviderError::Network(s) => String::from_str("Network error: ").concat(s.as_str()),
            ProviderError::InvalidResponse(s) => String::from_str("Invalid response: ").concat(
                s.as_str(),
            ),
            ProviderError::ModelNotSupported(s) => String::from_str(
                "Model not supported: ",
            ).concat(s.as_str()),
            ProviderError::AuthenticationFailed(s) => String::from_str(
                "Authentication failed: ",
            ).concat(s.as_str()),
        }
    }
}

/// Errors originating from memory operations.
#[derive(Debug)]
pub enum MemoryError {
    SessionNotFound(String),
    StorageError(String),
    SearchError(String),
}

impl MemoryError {
    /// The human-readable message of the error.
    pub open spec fn display(&self) -> Seq<char> {
        match self {
            MemoryError::SessionNotFound(s) => "Session not found: "@ + s@,
            MemoryError::StorageError(s) => "Storage error: "@ + s@,
            MemoryError::SearchError(s) => "Search error: "@ + s@,
        }
    }

    /// Renders the error message.
    pub fn to_string(&self) -> (r: String)
        ensures
            r@ == self.display(),
    {
        match self {
            MemoryError::SessionNotFound(s) => String::from_str("Session not found: ").concat(
                s.as_str(),
            ),
            MemoryError::StorageError(s) => String::from_str("Storage error: ").concat(s.as_str()),
            MemoryError::SearchError(s) => String::from_str("Search error: ").concat(s.as_str()),
        }
    }
}

/// Errors originating from guardrail checks.
#[derive(Debug)]
pub enum GuardrailError {
    CheckFailed(String),
    Configuration(String),
}

impl GuardrailError {
    /// The human-readable message of the error.
    pub open spec fn display(&self) -> Seq<char> {
        match self {
            GuardrailError::CheckFailed(s) => "Guardrail check failed: "@ + s@,
            GuardrailError::Configuration(s) => "Configuration error: "@ + s@,
        }
    }

    /// Renders the error message.
    pub fn to_string(&self) -> (r: String)
        ensures
            r@ == self.display(),
    {
        match self {
            GuardrailError::CheckFailed(s) => String::from_str("Guardrail check failed: ").concat(
                s.as_str(),
            ),
            GuardrailError::Configuration(s) => String::from_str("Configuration error: ").concat(
                s.as_str(),
            ),
        }
    }
}

/// The framework's top-level error, wrapping the errors of each subsystem.
#[derive(Debug)]
pub enum LortexError {
    Agent(AgentError),
    Tool(ToolError),
    Provider(ProviderError),
    Memory(MemoryError),
    Guardrail(GuardrailError),
    /// A JSON (de)serialization failure, with the serializer's message.
    Serialization(String),
    Other(String),
}

impl LortexError {
    /// The human-readable message of the error.
    pub open spec fn display(&self) -> Seq<char> {
        match self {
            LortexError::Agent(e) => "Agent error: "@ + e.display(),
            LortexError::Tool(e) => "Tool error: "@ + e.display(),
            LortexError::Provider(e) => "Provider error: "@ + e.display(),
            LortexError::Memory(e) => "Memory error: "@ + e.display(),
            LortexError::Guardrail(e) => "Guardrail error: "@ + e.display(),
            LortexError::Serialization(s) => "Serialization error: "@ + s@,
            LortexError::Other(s) => s@,
        }
    }

    /// Renders the error message.
    pub fn to_string(&self) -> (r: String)
        ensures
            r@ == self.display(),
    {
        match self {
            LortexError::Agent(e) => String::from_str("Agent error: ").concat(
                e.to_string().as_str(),
            ),
            LortexError::Tool(e) => String::from_str("Tool error: ").concat(e.to_string().as_str()),
            LortexError::Provider(e) => String::from_str("Provider error: ").concat(
                e.to_string().as_str(),
            ),
            LortexError::Memory(e) => String::from_str("Memory error: ").concat(
                e.to_string().as_str(),
            ),
            LortexError::Guardrail(e) => String::from_str("Guardrail error: ").concat(
                e.to_string().as_str(),
            ),
            LortexError::Serialization(s) => String::from_str("Serialization error: ").concat(
                s.as_str(),
            ),
            LortexError::Other(s) => s.clone(),
        }
    }
}

impl From<AgentError> for LortexError {
    fn from(e: AgentError) -> (r: LortexError) {
        LortexError::Agent(e)
    }
}

impl vstd::std_specs::convert::FromSpecImpl<AgentError> for LortexError {
    open spec fn obeys_from_spec() -> bool {
        true
    }

    open spec fn from_spec(e: AgentError) -> LortexError {
        LortexError::Agent(e)
    }
}

impl From<ToolError> for LortexError {
    fn from(e: ToolError) -> (r: LortexError) {
        LortexError::Tool(e)
    }
}

impl vstd::std_specs::convert::FromSpecImpl<ToolError> for LortexError {
    open spec fn obeys_from_spec() -> bool {
        true
    }

    open spec fn from_spec(e: ToolError) -> LortexError {
        LortexError::Tool(e)
    }
}

impl From<ProviderError> for LortexError {
    fn from(e: ProviderError) -> (r: LortexError) {
        LortexError::Provider(e)
    }
}

impl vstd::std_specs::convert::FromSpecImpl<ProviderError> for LortexError {
    open spec fn obeys_from_spec() -> bool {
        true
    }

    open spec fn from_spec(e: ProviderError) -> LortexError {
        LortexError::Provider(e)
    }
}

impl From<MemoryError> for LortexError {
    fn from(e: MemoryError) -> (r: LortexError) {
        LortexError::Memory(e)
    }
}

impl vstd::std_specs::convert::FromSpecImpl<MemoryError> for LortexError {
    open spec fn obeys_from_spec() -> bool {
        true
    }

    open spec fn from_spec(e: MemoryError) -> LortexError {
        LortexError::Memory(e)
    }
}

impl From<GuardrailError> for LortexError {
    fn from(e: GuardrailError) -> (r: LortexError) {
        LortexError::Guardrail(e)
    }
}

impl vstd::std_specs::convert::FromSpecImpl<GuardrailError> for LortexError {
    open spec fn obeys_from_spec() -> bool {
        true
    }

    open spec fn from_spec(e: GuardrailError) -> LortexError {
        LortexError::Guardrail(e)
    }
}

} // verus!
