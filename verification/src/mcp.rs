//! MCP (Model Context Protocol): JSON-RPC messages, the client's requests
//! and readings, remote tools, and the server's dispatch.
//!
//! The transport (HTTP) and the typed decoding of results happen outside;
//! this module shapes the requests and reads the responses.

use vstd::prelude::*;
use crate::error::ToolError;
use crate::codec::{render_json, rendered_json};
use crate::json::{
    array_of, element, entry_views, field, field_of, jstr, jviews, lemma_array_view,
    lemma_object_view, str_of, Json, JsonNumber, JsonView, NumberView,
};
use crate::openai::empty_object;
use crate::provider::ToolDefinition;
use crate::text::text_eq;
use crate::tool::{ToolContext, ToolOutput};
use crate::wire::{join, join_texts};

verus! {

/// The MCP protocol version spoken.
pub open spec fn protocol_version() -> Seq<char> {
    "2024-11-05"@
}

/// The version this implementation reports.
pub open spec fn implementation_version() -> Seq<char> {
    "0.1.0"@
}

/// How the client reaches an MCP server.
#[derive(Debug)]
pub enum McpTransport {
    /// A local server spoken to over stdin and stdout.
    Stdio { command: String, args: Vec<String> },
    /// A remote server reached over HTTP with server-sent events.
    Sse { url: String },
}

impl Clone for McpTransport {
    fn clone(&self) -> (r: McpTransport)
        ensures
            match (*self, r) {
                (McpTransport::Stdio { command: c1, args: a1 }, McpTransport::Stdio { command: c2, args: a2 }) => c1@
                    == c2@ && a1@.map_values(|s: String| s@) == a2@.map_values(|s: String| s@),
                (McpTransport::Sse { url: u1 }, McpTransport::Sse { url: u2 }) => u1@ == u2@,
                _ => false,
            },
    {
        match self {
            McpTransport::Stdio { command, args } => {
                let ghost av = args@.map_values(|s: String| s@);
                let mut copy: Vec<String> = Vec::new();
                let mut i: usize = 0;
                while i < args.len()
                    invariant
                        0 <= i <= args@.len(),
                        av == args@.map_values(|s: String| s@),
                        copy@.map_values(|s: String| s@) == av.subrange(0, i as int),
                    decreases args@.len() - i,
                {
                    let ghost prev = copy@.map_values(|s: String| s@);
                    copy.push(args[i].clone());
                    assert(copy@.map_values(|s: String| s@) =~= prev.push(av[i as int]));
                    assert(av.subrange(0, i + 1) =~= av.subrange(0, i as int).push(av[i as int]));
                    i = i + 1;
                }
                assert(av.subrange(0, av.len() as int) =~= av);
                McpTransport::Stdio { command: command.clone(), args: copy }
            },
            McpTransport::Sse { url } => McpTransport::Sse { url: url.clone() },
        }
    }
}

/// A JSON-RPC request.
#[derive(Debug)]
pub struct JsonRpcRequest {
    pub jsonrpc: String,
    pub id: Json,
    pub method: String,
    pub params: Json,
}

impl JsonRpcRequest {
    /// A JSON-RPC 2.0 request.
    pub fn new(id: Json, method: &str, params: Json) -> (r: JsonRpcRequest)
        ensures
            r.jsonrpc@ == "2.0"@,
            r.id@ == id@,
            r.method@ == method@,
            r.params@ == params@,
    {
        JsonRpcRequest { jsonrpc: String::from_str("2.0"), id, method: String::from_str(method), params }
    }
}

/// A JSON-RPC error.
#[derive(Debug)]
pub struct JsonRpcError {
    pub code: i64,
    pub message: String,
    pub data: Option<Json>,
}

/// A JSON-RPC response.
#[derive(Debug)]
pub struct JsonRpcResponse {
    pub jsonrpc: String,
    pub id: Json,
    pub result: Option<Json>,
    pub error: Option<JsonRpcError>,
}

/// The capabilities an MCP server announces.
#[derive(Debug)]
pub struct McpServerCapabilities {
    pub tools: Option<Json>,
    pub resources: Option<Json>,
    pub prompts: Option<Json>,
}

impl Default for McpServerCapabilities {
    /// No capability announced.
    fn default() -> (r: McpServerCapabilities)
        ensures
            r.tools is None && r.resources is None && r.prompts is None,
    {
        McpServerCapabilities { tools: None, resources: None, prompts: None }
    }
}

/// A tool offered by an MCP server.
#[derive(Debug)]
pub struct McpToolDefinition {
    pub name: String,
    pub description: String,
    pub input_schema: Json,
}

/// A resource exposed by an MCP server.
#[derive(Debug)]
pub struct McpResource {
    pub uri: String,
    pub name: String,
    pub description: Option<String>,
    pub mime_type: Option<String>,
}

/// The contents of a resource.
#[derive(Debug)]
pub struct McpResourceContents {
    pub uri: String,
    pub mime_type: Option<String>,
    pub text: Option<String>,
    pub blob: Option<String>,
}

/// The value under `key` of an optional result.
pub open spec fn result_field(result: Option<Json>, key: Seq<char>) -> Option<JsonView> {
    match result {
        Some(r) => field(r@, key),
        None => None,
    }
}

fn result_get<'a>(result: &'a Option<Json>, key: &str) -> (r: Option<&'a Json>)
    ensures
        crate::json::opt_jview(r) == result_field(*result, key@),
{
    match result {
        Some(v) => v.get(key),
        None => None,
    }
}

/// The params of the initialize request.
pub open spec fn initialize_params() -> JsonView {
    JsonView::Object(
        seq![
            ("capabilities"@, JsonView::Object(Seq::empty())),
            (
                "clientInfo"@,
                JsonView::Object(
                    seq![
                        ("name"@, JsonView::Str("lortex"@)),
                        ("version"@, JsonView::Str(implementation_version())),
                    ],
                ),
            ),
            ("protocolVersion"@, JsonView::Str(protocol_version())),
        ],
    )
}

/// The MCP client.
#[derive(Debug)]
pub struct McpClient {
    transport: McpTransport,
    server_capabilities: Option<McpServerCapabilities>,
}

impl McpClient {
    /// The transport.
    pub closed spec fn spec_transport(&self) -> McpTransport {
        self.transport
    }

    /// Whether the server's capabilities are known.
    pub closed spec fn initialized(&self) -> bool {
        self.server_capabilities is Some
    }

    /// A client over `transport`, not initialized.
    pub fn new(transport: McpTransport) -> (r: McpClient)
        ensures
            r.spec_transport() == transport,
            !r.initialized(),
    {
        McpClient { transport, server_capabilities: None }
    }

    /// A client of a local server run as `command args`.
    pub fn stdio(command: &str, args: Vec<String>) -> (r: McpClient)
        ensures
            r.spec_transport() matches McpTransport::Stdio { command: c, args: a } && c@ == command@
                && a == args,
            !r.initialized(),
    {
        Self::new(McpTransport::Stdio { command: String::from_str(command), args })
    }

    /// A client of a remote server at `url`.
    pub fn sse(url: &str) -> (r: McpClient)
        ensures
            r.spec_transport() matches McpTransport::Sse { url: u } && u@ == url@,
            !r.initialized(),
    {
        Self::new(McpTransport::Sse { url: String::from_str(url) })
    }

    /// The transport.
    pub fn transport(&self) -> (r: &McpTransport)
        ensures
            *r == self.spec_transport(),
    {
        &self.transport
    }

    /// The server's capabilities, once initialized.
    pub fn server_capabilities(&self) -> (r: &Option<McpServerCapabilities>)
        ensures
            r is Some == self.initialized(),
    {
        &self.server_capabilities
    }

    /// Records the capabilities the server announced.
    pub fn set_capabilities(&mut self, capabilities: McpServerCapabilities)
        ensures
            final(self).initialized(),
            final(self).spec_transport() == old(self).spec_transport(),
    {
        self.server_capabilities = Some(capabilities);
    }

    /// The URL requests go to; only remote servers can be reached.
    pub fn endpoint(&self) -> (r: Result<String, String>)
        ensures
            match self.spec_transport() {
                McpTransport::Sse { url } => r matches Ok(u) && u@ == url@,
                McpTransport::Stdio { .. } => r matches Err(m) && m@
                    == "Stdio transport not yet fully implemented. Use SSE transport."@,
            },
    {
        match &self.transport {
            McpTransport::Sse { url } => Ok(url.clone()),
            McpTransport::Stdio { .. } => Err(
                String::from_str("Stdio transport not yet fully implemented. Use SSE transport."),
            ),
        }
    }

    /// The initialize request: protocol version, no client capability, and
    /// the client's name and version.
    pub fn initialize_request(&self) -> (r: JsonRpcRequest)
        ensures
            r.jsonrpc@ == "2.0"@,
            r.id@ == JsonView::Number(NumberView::PosInt(1)),
            r.method@ == "initialize"@,
            r.params@ == initialize_params(),
    {
        let mut info: Vec<(String, Json)> = Vec::new();
        info.push((String::from_str("name"), jstr("lortex")));
        info.push((String::from_str("version"), jstr("0.1.0")));
        proof {
            lemma_object_view(info);
        }
        let mut p: Vec<(String, Json)> = Vec::new();
        p.push((String::from_str("capabilities"), empty_object()));
        p.push((String::from_str("clientInfo"), Json::Object(info)));
        p.push((String::from_str("protocolVersion"), jstr("2024-11-05")));
        proof {
            lemma_object_view(p);
            assert(entry_views(info@) =~= initialize_params()->Object_0[1].1->Object_0);
            assert(entry_views(p@) =~= initialize_params()->Object_0);
        }
        JsonRpcRequest::new(Json::Number(JsonNumber::PosInt(1)), "initialize", Json::Object(p))
    }

    /// The announced capabilities in an initialize response: its result's
    /// `capabilities`, or null.
    pub fn capabilities_value(response: &JsonRpcResponse) -> (r: Json)
        ensures
            r@ == match result_field(response.result, "capabilities"@) {
                Some(c) => c,
                None => JsonView::Null,
            },
    {
        match result_get(&response.result, "capabilities") {
            Some(c) => c.clone(),
            None => Json::Null,
        }
    }

    /// The request listing the server's tools.
    pub fn tools_list_request(&self) -> (r: JsonRpcRequest)
        ensures
            r.jsonrpc@ == "2.0"@,
            r.id@ == JsonView::Number(NumberView::PosInt(2)),
            r.method@ == "tools/list"@,
            r.params@ == JsonView::Object(Seq::empty()),
    {
        JsonRpcRequest::new(Json::Number(JsonNumber::PosInt(2)), "tools/list", empty_object())
    }

    /// The tool definitions in a tools list response: its result's `tools`,
    /// or an empty list.
    pub fn tools_value(response: &JsonRpcResponse) -> (r: Json)
        ensures
            r@ == match result_field(response.result, "tools"@) {
                Some(t) => t,
                None => JsonView::Array(Seq::empty()),
            },
    {
        match result_get(&response.result, "tools") {
            Some(t) => t.clone(),
            None => {
                let a: Vec<Json> = Vec::new();
                proof {
                    lemma_array_view(a);
                }
                assert(jviews(a@) =~= Seq::empty());
                Json::Array(a)
            },
        }
    }

    /// The request reading resource `uri`.
    pub fn resource_request(&self, uri: &str) -> (r: JsonRpcRequest)
        ensures
            r.jsonrpc@ == "2.0"@,
            r.id@ == JsonView::Number(NumberView::PosInt(3)),
            r.method@ == "resources/read"@,
            r.params@ == JsonView::Object(seq![("uri"@, JsonView::Str(uri@))]),
    {
        let mut p: Vec<(String, Json)> = Vec::new();
        p.push((String::from_str("uri"), jstr(uri)));
        proof {
            lemma_object_view(p);
            assert(entry_views(p@) =~= seq![("uri"@, JsonView::Str(uri@))]);
        }
        JsonRpcRequest::new(Json::Number(JsonNumber::PosInt(3)), "resources/read", Json::Object(p))
    }

    /// The first contents of a resource read response.
    pub fn resource_contents(response: &JsonRpcResponse) -> (r: Result<Json, String>)
        ensures
            match element(result_field(response.result, "contents"@), 0) {
                Some(c) => r matches Ok(v) && v@ == c,
                None => r matches Err(m) && m@ == "No contents in response"@,
            },
    {
        let first = match result_get(&response.result, "contents") {
            Some(c) => c.at(0),
            None => None,
        };
        match first {
            Some(c) => Ok(c.clone()),
            None => Err(String::from_str("No contents in response")),
        }
    }

    /// The tool of a discovered tool definition, reached over this
    /// client's transport.
    pub fn remote_tool(&self, definition: McpToolDefinition) -> (r: McpRemoteTool)
        ensures
            r.name@ == definition.name@,
            r.description@ == definition.description@,
            r.schema@ == definition.input_schema@,
    {
        McpRemoteTool {
            name: definition.name,
            description: definition.description,
            schema: definition.input_schema,
            transport: self.transport.clone(),
        }
    }
}

/// A tool backed by a remote MCP server.
#[derive(Debug)]
pub struct McpRemoteTool {
    pub name: String,
    pub description: String,
    pub schema: Json,
    pub transport: McpTransport,
}

/// The text of a tool call result: the texts of its content items joined
/// by newlines, when its content is a list; otherwise none.
pub open spec fn content_texts(items: Seq<JsonView>) -> Seq<Seq<char>>
    decreases items.len(),
{
    if items.len() == 0 {
        Seq::empty()
    } else {
        let prev = content_texts(items.drop_last());
        match str_of(field(items.last(), "text"@)) {
            Some(t) => prev.push(t),
            None => prev,
        }
    }
}

/// The texts of content items, in order.
fn item_texts(items: &Vec<Json>) -> (r: Vec<String>)
    ensures
        r@.map_values(|s: String| s@) == content_texts(jviews(items@)),
{
                let ghost iv = jviews(items@);
    let mut texts: Vec<String> = Vec::new();
    let mut i: usize = 0;
    while i < items.len()
        invariant
            0 <= i <= items@.len(),
            iv == jviews(items@),
            texts@.map_values(|s: String| s@) == content_texts(iv.subrange(0, i as int)),
        decreases items@.len() - i,
    {
        let ghost w = iv.subrange(0, i + 1);
        assert(w.drop_last() =~= iv.subrange(0, i as int));
        assert(w.last() == items@[i as int]@);
        let ghost prev = texts@.map_values(|s: String| s@);
        match items[i].get("text") {
            Some(t) => match t.as_str() {
                Some(s) => {
                    texts.push(String::from_str(s));
                    assert(texts@.map_values(|s: String| s@) =~= prev.push(s@));
                },
                None => {},
            },
            None => {},
        }
        i = i + 1;
    }
    assert(iv.subrange(0, iv.len() as int) =~= iv);
    texts
}

impl McpRemoteTool {
    /// The request calling this tool with `args`.
    pub fn call_request(&self, args: Json) -> (r: JsonRpcRequest)
        ensures
            r.jsonrpc@ == "2.0"@,
            r.id@ == JsonView::Number(NumberView::PosInt(1)),
            r.method@ == "tools/call"@,
            r.params@ == JsonView::Object(
                seq![("arguments"@, args@), ("name"@, JsonView::Str(self.name@))],
            ),
    {
        let ghost av = args@;
        let mut p: Vec<(String, Json)> = Vec::new();
        p.push((String::from_str("arguments"), args));
        p.push((String::from_str("name"), Json::Str(self.name.clone())));
        proof {
            lemma_object_view(p);
            assert(entry_views(p@) =~= seq![("arguments"@, av), ("name"@, JsonView::Str(self.name@))]);
        }
        JsonRpcRequest::new(Json::Number(JsonNumber::PosInt(1)), "tools/call", Json::Object(p))
    }

    /// The URL the call goes to; only remote servers can be reached.
    pub fn call_endpoint(&self) -> (r: Result<String, ToolError>)
        ensures
            match self.transport {
                McpTransport::Sse { url } => r matches Ok(u) && u@ == url@,
                McpTransport::Stdio { .. } => r matches Err(ToolError::ExecutionFailed(m)) && m@
                    == "Stdio transport not yet fully implemented"@,
            },
    {
        match &self.transport {
            McpTransport::Sse { url } => Ok(url.clone()),
            McpTransport::Stdio { .. } => Err(
                ToolError::ExecutionFailed(String::from_str("Stdio transport not yet fully implemented")),
            ),
        }
    }

    /// Reads the response to a call: an error fails the call with its
    /// message; a result with a content list gives the texts of its items,
    /// joined by newlines; any other result (null when missing) is the
    /// output itself.
    #[verifier::spinoff_prover]
    pub fn interpret_call(response: JsonRpcResponse) -> (r: Result<ToolOutput, ToolError>)
        ensures
            match response.error {
                Some(e) => r matches Err(ToolError::ExecutionFailed(m)) && m@ == e.message@,
                None => r matches Ok(out) && !out.is_error && {
                    let result = match response.result {
                        Some(v) => v@,
                        None => JsonView::Null,
                    };
                    match array_of(field(result, "content"@)) {
                        Some(items) => out.content@ == JsonView::Str(
                            join(content_texts(items), "\n"@),
                        ),
                        None => out.content@ == result,
                    }
                },
            },
    {
        match response.error {
            Some(e) => {
                return Err(ToolError::ExecutionFailed(e.message));
            },
            None => {},
        }
        let result = match response.result {
            Some(v) => v,
            None => Json::Null,
        };
        let items = match result.get("content") {
            Some(c) => c.as_array(),
            None => None,
        };
        match items {
            Some(items) => {
                let texts = item_texts(items);
                let joined = join_texts(&texts, "\n");
                Ok(ToolOutput::text(joined.as_str()))
            },
            None => Ok(ToolOutput::json(result)),
        }
    }
}

/// What the server does with a request.
#[derive(Debug)]
pub enum McpDispatch {
    /// Answer at once.
    Respond(JsonRpcResponse),
    /// Run tool `tool_index` with `arguments`, then answer request `id`
    /// with its outcome.
    CallTool { tool_index: usize, arguments: Json, id: Json },
}

/// The MCP server: local tools and resources exposed as an MCP service.
/// Generic over the handles `T` of its tools, which it carries with their
/// definitions.
#[derive(Debug)]
pub struct McpServer<T> {
    tools: Vec<(ToolDefinition, T)>,
    resources: Vec<McpResource>,
    name: String,
    version: String,
}

/// A tool definition in the MCP format.
pub open spec fn mcp_tool_json(d: (Seq<char>, Seq<char>, JsonView)) -> JsonView {
    JsonView::Object(
        seq![
            ("description"@, JsonView::Str(d.1)),
            ("inputSchema"@, d.2),
            ("name"@, JsonView::Str(d.0)),
        ],
    )
}

/// A resource in the MCP format: its uri and name, then its description
/// and MIME type when set.
pub open spec fn resource_json(r: McpResource) -> JsonView {
    let base = seq![("uri"@, JsonView::Str(r.uri@)), ("name"@, JsonView::Str(r.name@))];
    let b1 = match r.description {
        Some(d) => base.push(("description"@, JsonView::Str(d@))),
        None => base,
    };
    JsonView::Object(
        match r.mime_type {
            Some(m) => b1.push(("mimeType"@, JsonView::Str(m@))),
            None => b1,
        },
    )
}

/// The result of a tool call: one text item and the error flag.
pub open spec fn call_result(text: Seq<char>, is_error: bool) -> JsonView {
    JsonView::Object(
        seq![
            (
                "content"@,
                JsonView::Array(
                    seq![
                        JsonView::Object(
                            seq![("text"@, JsonView::Str(text)), ("type"@, JsonView::Str("text"@))],
                        ),
                    ],
                ),
            ),
            ("isError"@, JsonView::Bool(is_error)),
        ],
    )
}

/// The answer to a request: a result or an error, for its id.
pub open spec fn is_answer(r: JsonRpcResponse, id: JsonView) -> bool {
    r.jsonrpc@ == "2.0"@ && r.id@ == id
}

impl<T> McpServer<T> {
    /// The definitions of the server's tools.
    pub closed spec fn tool_definitions(&self) -> Seq<(Seq<char>, Seq<char>, JsonView)> {
        self.tools@.map_values(|t: (ToolDefinition, T)| t.0@)
    }

    /// The handles of the server's tools.
    pub closed spec fn tool_handles(&self) -> Seq<T> {
        self.tools@.map_values(|t: (ToolDefinition, T)| t.1)
    }

    /// The server's resources.
    pub closed spec fn spec_resources(&self) -> Seq<McpResource> {
        self.resources@
    }

    /// The server's name.
    pub closed spec fn spec_name(&self) -> Seq<char> {
        self.name@
    }

    /// The server's version.
    pub closed spec fn spec_version(&self) -> Seq<char> {
        self.version@
    }

    /// A server named `name`, without tools or resources.
    pub fn new(name: &str) -> (r: McpServer<T>)
        ensures
            r.spec_name() == name@,
            r.spec_version() == implementation_version(),
            r.tool_definitions().len() == 0,
            r.tool_handles().len() == 0,
            r.spec_resources().len() == 0,
    {
        let r = McpServer {
            tools: Vec::new(),
            resources: Vec::new(),
            name: String::from_str(name),
            version: String::from_str("0.1.0"),
        };
        assert(r.tool_definitions() =~= Seq::empty());
        assert(r.tool_handles() =~= Seq::empty());
        r
    }

    /// Adds a tool, with its definition.
    pub fn add_tool(self, definition: ToolDefinition, tool: T) -> (r: McpServer<T>)
        ensures
            r.tool_definitions() == self.tool_definitions().push(definition@),
            r.tool_handles() == self.tool_handles().push(tool),
            r.spec_resources() == self.spec_resources(),
            r.spec_name() == self.spec_name(),
            r.spec_version() == self.spec_version(),
    {
        let mut s = self;
        let ghost dv = definition@;
        s.tools.push((definition, tool));
        assert(s.tool_definitions() =~= self.tool_definitions().push(dv));
        assert(s.tool_handles() =~= self.tool_handles().push(tool));
        s
    }

    /// Adds tools, with their definitions.
    pub fn add_tools(self, tools: Vec<(ToolDefinition, T)>) -> (r: McpServer<T>)
        ensures
            r.tool_definitions() == self.tool_definitions() + tools@.map_values(
                |t: (ToolDefinition, T)| t.0@,
            ),
            r.tool_handles() == self.tool_handles() + tools@.map_values(|t: (ToolDefinition, T)| t.1),
            r.spec_resources() == self.spec_resources(),
            r.spec_name() == self.spec_name(),
            r.spec_version() == self.spec_version(),
    {
        let mut s = self;
        let mut more = tools;
        let ghost before = s.tools@;
        s.tools.append(&mut more);
        assert(s.tool_definitions() =~= self.tool_definitions() + tools@.map_values(
            |t: (ToolDefinition, T)| t.0@,
        ));
        assert(s.tool_handles() =~= self.tool_handles() + tools@.map_values(
            |t: (ToolDefinition, T)| t.1,
        ));
        s
    }

    /// Adds a resource.
    pub fn add_resource(self, resource: McpResource) -> (r: McpServer<T>)
        ensures
            r.spec_resources() == self.spec_resources().push(resource),
            r.tool_definitions() == self.tool_definitions(),
            r.tool_handles() == self.tool_handles(),
            r.spec_name() == self.spec_name(),
            r.spec_version() == self.spec_version(),
    {
        let mut s = self;
        s.resources.push(resource);
        s
    }

    /// The number of tools.
    pub fn tool_count(&self) -> (r: usize)
        ensures
            r == self.tool_handles().len(),
    {
        self.tools.len()
    }

    /// The tool handle at `i`.
    pub fn tool_at(&self, i: usize) -> (r: &T)
        requires
            i < self.tool_handles().len(),
        ensures
            *r == self.tool_handles()[i as int],
    {
        &self.tools[i].1
    }
}

/// The result of the initialize request: the protocol version, the tools
/// and resources capabilities, and the server's name and version.
pub open spec fn initialize_result(name: Seq<char>, version: Seq<char>) -> JsonView {
    JsonView::Object(
        seq![
            (
                "capabilities"@,
                JsonView::Object(
                    seq![
                        ("resources"@, JsonView::Object(Seq::empty())),
                        ("tools"@, JsonView::Object(Seq::empty())),
                    ],
                ),
            ),
            ("protocolVersion"@, JsonView::Str(protocol_version())),
            (
                "serverInfo"@,
                JsonView::Object(
                    seq![("name"@, JsonView::Str(name)), ("version"@, JsonView::Str(version))],
                ),
            ),
        ],
    )
}

/// Whether the server answers request `id` at once with `result`.
pub open spec fn answers_with(r: McpDispatch, id: JsonView, result: JsonView) -> bool {
    match r {
        McpDispatch::Respond(resp) => is_answer(resp, id) && resp.error is None && match resp.result {
            Some(v) => v@ == result,
            None => false,
        },
        _ => false,
    }
}

/// Whether the server refuses request `id` at once with error `code` and
/// `message`.
pub open spec fn refuses(r: McpDispatch, id: JsonView, code: i64, message: Seq<char>) -> bool {
    match r {
        McpDispatch::Respond(resp) => is_answer(resp, id) && resp.result is None && match resp.error {
            Some(e) => e.code == code && e.message@ == message && e.data is None,
            None => false,
        },
        _ => false,
    }
}

/// A successful answer.
fn answer(id: Json, result: Json) -> (r: JsonRpcResponse)
    ensures
        is_answer(r, id@),
        r.result matches Some(v) && v@ == result@,
        r.error is None,
{
    JsonRpcResponse { jsonrpc: String::from_str("2.0"), id, result: Some(result), error: None }
}

/// An error answer.
fn error_answer(id: Json, code: i64, message: String) -> (r: JsonRpcResponse)
    ensures
        is_answer(r, id@),
        r.result is None,
        r.error matches Some(e) && e.code == code && e.message@ == message@ && e.data is None,
{
    JsonRpcResponse {
        jsonrpc: String::from_str("2.0"),
        id,
        result: None,
        error: Some(JsonRpcError { code, message, data: None }),
    }
}

/// An object of one entry.
fn single(key: &str, value: Json) -> (r: Json)
    ensures
        r@ == JsonView::Object(seq![(key@, value@)]),
{
    let ghost vv = value@;
    let mut o: Vec<(String, Json)> = Vec::new();
    o.push((String::from_str(key), value));
    proof {
        lemma_object_view(o);
    }
    assert(entry_views(o@) =~= seq![(key@, vv)]);
    Json::Object(o)
}

/// The context a tool runs in when the server calls it: the server's own
/// session and agent name, and no conversation.
pub fn server_tool_context() -> (r: ToolContext)
    ensures
        r.session_id@ == "mcp"@,
        r.agent_name@ == "mcp-server"@,
        r.messages@.len() == 0,
{
    ToolContext {
        session_id: String::from_str("mcp"),
        agent_name: String::from_str("mcp-server"),
        messages: Vec::new(),
    }
}

/// The answer to a tool call: the tool's output content rendered as JSON
/// text with its error flag, or the error's message flagged as an error.
pub fn call_response(id: Json, outcome: Result<ToolOutput, ToolError>) -> (r: JsonRpcResponse)
    ensures
        is_answer(r, id@),
        r.error is None,
        r.result matches Some(v) && v@ == match outcome {
            Ok(o) => call_result(rendered_json(o.content@), o.is_error),
            Err(e) => call_result(e.display(), true),
        },
{
    let (text, is_error) = match outcome {
        Ok(o) => (render_json(&o.content), o.is_error),
        Err(e) => (e.to_string(), true),
    };
    let mut item: Vec<(String, Json)> = Vec::new();
    item.push((String::from_str("text"), Json::Str(text)));
    item.push((String::from_str("type"), jstr("text")));
    proof {
        lemma_object_view(item);
    }
    let mut items: Vec<Json> = Vec::new();
    items.push(Json::Object(item));
    proof {
        lemma_array_view(items);
    }
    let mut o: Vec<(String, Json)> = Vec::new();
    o.push((String::from_str("content"), Json::Array(items)));
    o.push((String::from_str("isError"), Json::Bool(is_error)));
    proof {
        lemma_object_view(o);
    }
    let result = Json::Object(o);
    assert(result@ == call_result(text@, is_error)) by {
        assert(entry_views(item@) =~= call_result(text@, is_error)->Object_0[0].1->Array_0[0]->Object_0);
        assert(jviews(items@) =~= call_result(text@, is_error)->Object_0[0].1->Array_0);
        assert(entry_views(o@) =~= call_result(text@, is_error)->Object_0);
    }
    answer(id, result)
}

impl<T> McpServer<T> {
    /// The initialize result.
    fn initialize_value(&self) -> (r: Json)
        ensures
            r@ == initialize_result(self.spec_name(), self.spec_version()),
    {
        let mut caps: Vec<(String, Json)> = Vec::new();
        caps.push((String::from_str("resources"), empty_object()));
        caps.push((String::from_str("tools"), empty_object()));
        proof {
            lemma_object_view(caps);
        }
        let mut info: Vec<(String, Json)> = Vec::new();
        info.push((String::from_str("name"), Json::Str(self.name.clone())));
        info.push((String::from_str("version"), Json::Str(self.version.clone())));
        proof {
            lemma_object_view(info);
        }
        let mut o: Vec<(String, Json)> = Vec::new();
        o.push((String::from_str("capabilities"), Json::Object(caps)));
        o.push((String::from_str("protocolVersion"), jstr("2024-11-05")));
        o.push((String::from_str("serverInfo"), Json::Object(info)));
        proof {
            lemma_object_view(o);
            let t = initialize_result(self.spec_name(), self.spec_version());
            assert(entry_views(caps@) =~= t->Object_0[0].1->Object_0);
            assert(entry_views(info@) =~= t->Object_0[2].1->Object_0);
            assert(entry_views(o@) =~= t->Object_0);
        }
        Json::Object(o)
    }

    /// The tools list result.
    fn tools_value(&self) -> (r: Json)
        ensures
            r@ == JsonView::Object(
                seq![("tools"@, JsonView::Array(self.tool_definitions().map_values(|d: (Seq<char>, Seq<char>, JsonView)| mcp_tool_json(d))))],
            ),
    {
        let ghost target = self.tool_definitions().map_values(
            |d: (Seq<char>, Seq<char>, JsonView)| mcp_tool_json(d),
        );
        let mut out: Vec<Json> = Vec::new();
        let mut i: usize = 0;
        while i < self.tools.len()
            invariant
                0 <= i <= self.tools@.len(),
                target == self.tool_definitions().map_values(
                    |d: (Seq<char>, Seq<char>, JsonView)| mcp_tool_json(d),
                ),
                jviews(out@) == target.subrange(0, i as int),
            decreases self.tools@.len() - i,
        {
            let d = &self.tools[i].0;
            let mut o: Vec<(String, Json)> = Vec::new();
            o.push((String::from_str("description"), Json::Str(d.description.clone())));
            o.push((String::from_str("inputSchema"), d.parameters.clone()));
            o.push((String::from_str("name"), Json::Str(d.name.clone())));
            proof {
                lemma_object_view(o);
                assert(entry_views(o@) =~= mcp_tool_json(d@)->Object_0);
            }
            let ghost prev = out@;
            out.push(Json::Object(o));
            assert(target[i as int] == mcp_tool_json(d@));
            assert(jviews(out@) =~= jviews(prev).push(target[i as int]));
            assert(target.subrange(0, i + 1) =~= target.subrange(0, i as int).push(target[i as int]));
            i = i + 1;
        }
        assert(target.subrange(0, target.len() as int) =~= target);
        proof {
            lemma_array_view(out);
        }
        single("tools", Json::Array(out))
    }

    /// The resources list result.
    fn resources_value(&self) -> (r: Json)
        ensures
            r@ == JsonView::Object(
                seq![("resources"@, JsonView::Array(self.spec_resources().map_values(|x: McpResource| resource_json(x))))],
            ),
    {
        let ghost target = self.spec_resources().map_values(|x: McpResource| resource_json(x));
        let mut out: Vec<Json> = Vec::new();
        let mut i: usize = 0;
        while i < self.resources.len()
            invariant
                0 <= i <= self.resources@.len(),
                target == self.spec_resources().map_values(|x: McpResource| resource_json(x)),
                jviews(out@) == target.subrange(0, i as int),
            decreases self.resources@.len() - i,
        {
            let res = &self.resources[i];
            let mut o: Vec<(String, Json)> = Vec::new();
            o.push((String::from_str("uri"), Json::Str(res.uri.clone())));
            o.push((String::from_str("name"), Json::Str(res.name.clone())));
            match &res.description {
                Some(d) => o.push((String::from_str("description"), Json::Str(d.clone()))),
                None => {},
            }
            match &res.mime_type {
                Some(m) => o.push((String::from_str("mimeType"), Json::Str(m.clone()))),
                None => {},
            }
            proof {
                lemma_object_view(o);
                assert(entry_views(o@) =~= resource_json(*res)->Object_0);
            }
            let ghost prev = out@;
            out.push(Json::Object(o));
            assert(jviews(out@) =~= jviews(prev).push(target[i as int]));
            assert(target.subrange(0, i + 1) =~= target.subrange(0, i as int).push(target[i as int]));
            i = i + 1;
        }
        assert(target.subrange(0, target.len() as int) =~= target);
        proof {
            lemma_array_view(out);
        }
        single("resources", Json::Array(out))
    }

    /// The index of the first tool named `name`.
    fn find_tool(&self, name: &str) -> (r: Option<usize>)
        ensures
            match crate::text::first_named(self.tool_definitions().map_values(|d: (Seq<char>, Seq<char>, JsonView)| d.0), name@) {
                Some(i) => r matches Some(j) && j == i,
                None => r is None,
            },
    {
        let ghost names = self.tool_definitions().map_values(
            |d: (Seq<char>, Seq<char>, JsonView)| d.0,
        );
        let mut i: usize = 0;
        while i < self.tools.len()
            invariant
                0 <= i <= self.tools@.len(),
                names == self.tool_definitions().map_values(|d: (Seq<char>, Seq<char>, JsonView)| d.0),
                names.len() == self.tools@.len(),
                forall|j: int| 0 <= j < i ==> names[j] != name@,
            decreases self.tools@.len() - i,
        {
            assert(names[i as int] == self.tools@[i as int].0.name@);
            if text_eq(self.tools[i].0.name.as_str(), name) {
                assert(crate::text::first_named(names, name@) == Some(i as int));
                return Some(i);
            }
            i = i + 1;
        }
        proof {
            crate::text::lemma_first_named(names, name@);
        }
        None
    }

    /// Dispatches a request: initialize, tools list and resources list are
    /// answered at once; a tool call goes to the named tool, or is refused
    /// when there is none; any other method is refused.
    #[verifier::spinoff_prover]
    pub fn dispatch(&self, request: JsonRpcRequest) -> (r: McpDispatch)
        ensures
            request.method@ == "initialize"@ ==> answers_with(
                r,
                request.id@,
                initialize_result(self.spec_name(), self.spec_version()),
            ),
            request.method@ == "tools/list"@ ==> answers_with(
                r,
                request.id@,
                JsonView::Object(
                    seq![("tools"@, JsonView::Array(self.tool_definitions().map_values(|d: (Seq<char>, Seq<char>, JsonView)| mcp_tool_json(d))))],
                ),
            ),
            request.method@ == "resources/list"@ ==> answers_with(
                r,
                request.id@,
                JsonView::Object(
                    seq![("resources"@, JsonView::Array(self.spec_resources().map_values(|x: McpResource| resource_json(x))))],
                ),
            ),
            request.method@ == "tools/call"@ ==> ({
                let name = crate::openai::str_or(field(request.params@, "name"@), Seq::empty());
                let args = match field(request.params@, "arguments"@) {
                    Some(a) => a,
                    None => JsonView::Object(Seq::empty()),
                };
                match crate::text::first_named(self.tool_definitions().map_values(|d: (Seq<char>, Seq<char>, JsonView)| d.0), name) {
                    Some(i) => r == McpDispatch::CallTool { tool_index: i as usize, arguments: r->arguments, id: r->id }
                        && r->arguments@ == args && r->id@ == request.id@ && i == r->tool_index,
                    None => refuses(r, request.id@, -32602i64, "Tool not found: "@ + name),
                }
            }),
            request.method@ != "initialize"@ && request.method@ != "tools/list"@ && request.method@
                != "tools/call"@ && request.method@ != "resources/list"@ ==> refuses(
                r,
                request.id@,
                -32601i64,
                "Method not found: "@ + request.method@,
            ),
    {
        proof {
            reveal_strlit("");
            reveal_strlit("initialize");
            reveal_strlit("tools/list");
            reveal_strlit("tools/call");
            reveal_strlit("resources/list");
            assert("initialize"@[0] != "tools/list"@[0]);
            assert("initialize"@[0] != "tools/call"@[0]);
            assert("initialize"@.len() != "resources/list"@.len());
            assert("tools/list"@[6] != "tools/call"@[6]);
            assert("tools/list"@.len() != "resources/list"@.len());
            assert("tools/call"@.len() != "resources/list"@.len());
        }
        let method = request.method.as_str();
        if text_eq(method, "initialize") {
            McpDispatch::Respond(answer(request.id, self.initialize_value()))
        } else if text_eq(method, "tools/list") {
            McpDispatch::Respond(answer(request.id, self.tools_value()))
        } else if text_eq(method, "tools/call") {
            let name: String = match request.params.get("name") {
                Some(n) => match n.as_str() {
                    Some(t) => String::from_str(t),
                    None => String::new(),
                },
                None => String::new(),
            };
            let arguments = match request.params.get("arguments") {
                Some(a) => a.clone(),
                None => empty_object(),
            };
            match self.find_tool(name.as_str()) {
                Some(i) => McpDispatch::CallTool { tool_index: i, arguments, id: request.id },
                None => McpDispatch::Respond(
                    error_answer(
                        request.id,
                        -32602,
                        String::from_str("Tool not found: ").concat(name.as_str()),
                    ),
                ),
            }
        } else if text_eq(method, "resources/list") {
            McpDispatch::Respond(answer(request.id, self.resources_value()))
        } else {
            let m = String::from_str("Method not found: ").concat(method);
            McpDispatch::Respond(error_answer(request.id, -32601, m))
        }
    }
}

} // verus!
