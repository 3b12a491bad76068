//! Lortex: a modular agent framework.
//!
//! This crate holds the framework's verified core: the message model, typed
//! errors, guardrails, conversation memories, the model registry and routing
//! decisions, the agent loop as a state machine, and the request/response
//! shaping of the LLM providers.

pub mod text;
pub mod error;
pub mod json;
pub mod codec;
pub mod message;
pub mod guardrail;
pub mod content_filter;
pub mod token_budget;
pub mod tool_approval;
pub mod rate_limiter;
pub mod session_table;
pub mod memory;
pub mod in_memory;
pub mod sliding_window;
pub mod registry;
pub mod provider;
pub mod strategy;
pub mod router;
pub mod tool;
pub mod event;
pub mod agent;
pub mod runner;
pub mod execution;
pub mod cache;
pub mod wire;
pub mod openai;
pub mod openai_stream;
pub mod sse_assembly;
pub mod anthropic;
pub mod anthropic_stream;
pub mod macro_support;
pub mod mcp;
pub mod a2a;
