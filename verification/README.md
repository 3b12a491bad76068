# lortex

An agent framework for LLMs: agents with tools, handoffs and guardrails,
model routing, memories, the OpenAI and Anthropic wire formats, and the MCP
and A2A protocols.

## Layout

- `src/` is the library, written in Verus. Every function there states its
  behaviour in `requires`/`ensures` and is proved against it. It holds the
  data and the decisions: messages and JSON values, the agent loop as a
  state machine (`runner`), guardrails, memories, the model registry and
  router, the request bodies and reply readers of the providers (`openai`,
  `anthropic`, their stream decoders, `cache`, `wire`, and `codec` for JSON
  text), and the MCP and A2A messages.
- `app/` is the asynchronous side, in ordinary Rust: the traits users
  implement (agents, tools, providers, guardrails, memories, event
  handlers), the runner that performs what the agent loop decides, the HTTP
  exchanges, and serializable copies of the library's types.
- `tests/` runs the library on concrete values.

The few calls into the standard library and outside crates that Verus
cannot see into (Unicode case mapping, JSON parsing and rendering, fresh
ids and the clock) stand behind small trusted functions. Their contracts
say what is known of the results: a named result where the result is a
function of the arguments, the shape of a fresh id, and nothing of the
time that the clock reads.
