//! Guardrail outcomes: the result of checking an agent's input or output.

use vstd::prelude::*;

verus! {

/// Result of a guardrail check.
#[derive(Debug)]
pub enum GuardrailResult {
    /// The check passed.
    Pass,
    /// A warning was generated but execution may continue.
    Warn { message: String },
    /// The check failed and execution should be blocked.
    Block { message: String },
}

/// The mathematical value of a [`GuardrailResult`].
pub enum Verdict {
    Pass,
    Warn(Seq<char>),
    Block(Seq<char>),
}

impl View for GuardrailResult {
    type V = Verdict;

    open spec fn view(&self) -> Verdict {
        match self {
            GuardrailResult::Pass => Verdict::Pass,
            GuardrailResult::Warn { message } => Verdict::Warn(message@),
            GuardrailResult::Block { message } => Verdict::Block(message@),
        }
    }
}

impl GuardrailResult {
    /// Whether the check passed.
    pub fn is_pass(&self) -> (r: bool)
        ensures
            r == (self@ is Pass),
    {
        match self {
            GuardrailResult::Pass => true,
            _ => false,
        }
    }

    /// Whether the check blocks execution.
    pub fn is_block(&self) -> (r: bool)
        ensures
            r == (self@ is Block),
    {
        match self {
            GuardrailResult::Block { .. } => true,
            _ => false,
        }
    }

    /// Whether the check produced a warning.
    pub fn is_warn(&self) -> (r: bool)
        ensures
            r == (self@ is Warn),
    {
        match self {
            GuardrailResult::Warn { .. } => true,
            _ => false,
        }
    }
}

/// Execution mode of a guardrail.
#[derive(Debug, Clone, Copy, PartialEq, Eq, Structural)]
pub enum GuardrailMode {
    /// Run alongside the LLM call (best latency).
    Parallel,
    /// Run before the LLM call, blocking until complete.
    Blocking,
}

impl Default for GuardrailMode {
    fn default() -> (r: GuardrailMode)
        ensures
            r == GuardrailMode::Parallel,
    {
        GuardrailMode::Parallel
    }
}

} // verus!
