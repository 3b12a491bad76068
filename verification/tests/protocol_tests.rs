use lortex::a2a::{self, A2AClient, AgentCapabilities};
use lortex::error::ToolError;
use lortex::json::{Json, JsonNumber};
use lortex::macro_support::{rust_type_to_json_type, to_pascal_case, parse_tool_attributes, tool_identity, tool_parameters_schema};
use lortex::mcp::{
    call_response, JsonRpcError, JsonRpcRequest, JsonRpcResponse, McpClient, McpDispatch, McpResource,
    McpServer, McpServerCapabilities, McpToolDefinition, McpTransport,
};
use lortex::provider::ToolDefinition;
use lortex::tool::ToolOutput;

fn s(t: &str) -> Json {
    Json::Str(t.to_string())
}

fn n(v: u64) -> Json {
    Json::Number(JsonNumber::PosInt(v))
}

fn o(entries: Vec<(&str, Json)>) -> Json {
    Json::Object(entries.into_iter().map(|(k, v)| (k.to_string(), v)).collect())
}

fn a(items: Vec<Json>) -> Json {
    Json::Array(items)
}

fn response(result: Option<Json>, error: Option<JsonRpcError>) -> JsonRpcResponse {
    JsonRpcResponse { jsonrpc: "2.0".to_string(), id: n(1), result, error }
}

fn request(id: u64, method: &str, params: Json) -> JsonRpcRequest {
    JsonRpcRequest::new(n(id), method, params)
}

fn server() -> McpServer<u32> {
    McpServer::new("test-server")
        .add_tool(
            ToolDefinition {
                name: "echo".to_string(),
                description: "Echoes its input".to_string(),
                parameters: o(vec![("type", s("object"))]),
            },
            7,
        )
        .add_resource(McpResource {
            uri: "file:///notes.txt".to_string(),
            name: "notes".to_string(),
            description: None,
            mime_type: Some("text/plain".to_string()),
        })
}

fn answer(d: McpDispatch) -> JsonRpcResponse {
    match d {
        McpDispatch::Respond(r) => r,
        McpDispatch::CallTool { .. } => panic!("expected an answer"),
    }
}

#[test]
fn pascal_case_of_snake_case() {
    assert_eq!(to_pascal_case("get_weather"), "GetWeather");
    assert_eq!(to_pascal_case("search"), "Search");
    assert_eq!(to_pascal_case("a__b_"), "AB");
    assert_eq!(to_pascal_case(""), "");
    assert_eq!(to_pascal_case("already_Pascal_x"), "AlreadyPascalX");
}

#[test]
fn json_types_of_rust_types() {
    assert_eq!(rust_type_to_json_type("String"), "string");
    assert_eq!(rust_type_to_json_type(" &str "), "string");
    assert_eq!(rust_type_to_json_type("bool"), "boolean");
    assert_eq!(rust_type_to_json_type("u64"), "integer");
    assert_eq!(rust_type_to_json_type("isize"), "integer");
    assert_eq!(rust_type_to_json_type("f32"), "number");
    assert_eq!(rust_type_to_json_type("Vec<String>"), "object");
}

#[test]
fn mcp_client_endpoints() {
    let remote = McpClient::sse("http://localhost:8080/mcp");
    assert_eq!(remote.endpoint().unwrap(), "http://localhost:8080/mcp");
    assert!(remote.server_capabilities().is_none());
    let local = McpClient::stdio("server", vec!["--flag".to_string()]);
    assert_eq!(local.endpoint().unwrap_err(), "Stdio transport not yet fully implemented. Use SSE transport.");
    match local.transport() {
        McpTransport::Stdio { command, args } => {
            assert_eq!(command, "server");
            assert_eq!(args, &vec!["--flag".to_string()]);
        }
        _ => panic!("expected stdio"),
    }
}

#[test]
fn mcp_client_set_capabilities() {
    let mut client = McpClient::sse("http://x");
    client.set_capabilities(McpServerCapabilities::default());
    assert!(client.server_capabilities().is_some());
}

#[test]
fn mcp_initialize_request_shape() {
    let client = McpClient::sse("http://x");
    let req = client.initialize_request();
    assert_eq!(req.jsonrpc, "2.0");
    assert_eq!(req.method, "initialize");
    assert_eq!(req.id.as_u64(), Some(1));
    assert_eq!(req.params.get("protocolVersion").unwrap().as_str(), Some("2024-11-05"));
    let info = req.params.get("clientInfo").unwrap();
    assert_eq!(info.get("name").unwrap().as_str(), Some("lortex"));
    assert_eq!(info.get("version").unwrap().as_str(), Some("0.1.0"));
}

#[test]
fn mcp_client_reads_responses() {
    let init = response(Some(o(vec![("capabilities", o(vec![("tools", o(vec![]))]))])), None);
    assert!(McpClient::capabilities_value(&init).get("tools").is_some());
    assert!(McpClient::capabilities_value(&response(None, None)).is_null());

    let tools = response(Some(o(vec![("tools", a(vec![o(vec![("name", s("t"))])]))])), None);
    assert_eq!(McpClient::tools_value(&tools).as_array().unwrap().len(), 1);
    assert_eq!(McpClient::tools_value(&response(None, None)).as_array().unwrap().len(), 0);

    let client = McpClient::sse("http://x");
    let req = client.resource_request("file:///a");
    assert_eq!(req.method, "resources/read");
    assert_eq!(req.id.as_u64(), Some(3));
    assert_eq!(req.params.get("uri").unwrap().as_str(), Some("file:///a"));
    let contents = response(Some(o(vec![("contents", a(vec![o(vec![("text", s("hello"))])]))])), None);
    let first = McpClient::resource_contents(&contents).unwrap();
    assert_eq!(first.get("text").unwrap().as_str(), Some("hello"));
    let empty = response(Some(o(vec![("contents", a(vec![]))])), None);
    assert_eq!(McpClient::resource_contents(&empty).unwrap_err(), "No contents in response");
}

#[test]
fn mcp_remote_tool_call_round() {
    let client = McpClient::sse("http://x/mcp");
    let tool = client.remote_tool(McpToolDefinition {
        name: "calc".to_string(),
        description: "Calculates".to_string(),
        input_schema: o(vec![("type", s("object"))]),
    });
    assert_eq!(tool.name, "calc");
    assert_eq!(tool.call_endpoint().unwrap(), "http://x/mcp");
    let req = tool.call_request(o(vec![("x", n(2))]));
    assert_eq!(req.method, "tools/call");
    assert_eq!(req.params.get("name").unwrap().as_str(), Some("calc"));
    assert_eq!(req.params.get("arguments").unwrap().get("x").unwrap().as_u64(), Some(2));

    let texts = response(
        Some(o(vec![("content", a(vec![o(vec![("text", s("a"))]), o(vec![("type", s("image"))]), o(vec![("text", s("b"))])]))])),
        None,
    );
    let out = lortex::mcp::McpRemoteTool::interpret_call(texts).unwrap();
    assert!(!out.is_error);
    assert_eq!(out.content.as_str(), Some("a\nb"));

    let plain = response(Some(o(vec![("value", n(4))])), None);
    let out = lortex::mcp::McpRemoteTool::interpret_call(plain).unwrap();
    assert_eq!(out.content.get("value").unwrap().as_u64(), Some(4));

    let failed = response(None, Some(JsonRpcError { code: -1, message: "boom".to_string(), data: None }));
    match lortex::mcp::McpRemoteTool::interpret_call(failed) {
        Err(ToolError::ExecutionFailed(m)) => assert_eq!(m, "boom"),
        _ => panic!("expected an execution failure"),
    }

    let local = McpClient::stdio("srv", vec![]).remote_tool(McpToolDefinition {
        name: "t".to_string(),
        description: String::new(),
        input_schema: Json::Null,
    });
    match local.call_endpoint() {
        Err(ToolError::ExecutionFailed(m)) => assert_eq!(m, "Stdio transport not yet fully implemented"),
        _ => panic!("expected an execution failure"),
    }
}

#[test]
fn mcp_server_initialize() {
    let r = answer(server().dispatch(request(5, "initialize", Json::Null)));
    assert_eq!(r.id.as_u64(), Some(5));
    let result = r.result.unwrap();
    assert_eq!(result.get("protocolVersion").unwrap().as_str(), Some("2024-11-05"));
    let info = result.get("serverInfo").unwrap();
    assert_eq!(info.get("name").unwrap().as_str(), Some("test-server"));
    assert_eq!(info.get("version").unwrap().as_str(), Some("0.1.0"));
}

#[test]
fn mcp_server_lists_tools_and_resources() {
    let srv = server();
    let tools = answer(srv.dispatch(request(2, "tools/list", Json::Null))).result.unwrap();
    let list = tools.get("tools").unwrap().as_array().unwrap();
    assert_eq!(list.len(), 1);
    assert_eq!(list[0].get("name").unwrap().as_str(), Some("echo"));
    assert_eq!(list[0].get("description").unwrap().as_str(), Some("Echoes its input"));
    assert_eq!(list[0].get("inputSchema").unwrap().get("type").unwrap().as_str(), Some("object"));

    let res = answer(srv.dispatch(request(3, "resources/list", Json::Null))).result.unwrap();
    let list = res.get("resources").unwrap().as_array().unwrap();
    assert_eq!(list.len(), 1);
    assert_eq!(list[0].get("uri").unwrap().as_str(), Some("file:///notes.txt"));
    assert_eq!(list[0].get("mimeType").unwrap().as_str(), Some("text/plain"));
    assert!(list[0].get("description").is_none());
}

#[test]
fn mcp_server_dispatches_tool_calls() {
    let srv = server();
    let call = srv.dispatch(request(9, "tools/call", o(vec![("name", s("echo")), ("arguments", o(vec![("x", n(1))]))])));
    match call {
        McpDispatch::CallTool { tool_index, arguments, id } => {
            assert_eq!(tool_index, 0);
            assert_eq!(*srv.tool_at(tool_index), 7);
            assert_eq!(arguments.get("x").unwrap().as_u64(), Some(1));
            assert_eq!(id.as_u64(), Some(9));
        }
        McpDispatch::Respond(_) => panic!("expected a tool call"),
    }
    let missing = answer(srv.dispatch(request(4, "tools/call", o(vec![("name", s("nope"))]))));
    let err = missing.error.unwrap();
    assert_eq!(err.code, -32602);
    assert_eq!(err.message, "Tool not found: nope");
    let unknown = answer(srv.dispatch(request(6, "prompts/list", Json::Null)));
    let err = unknown.error.unwrap();
    assert_eq!(err.code, -32601);
    assert_eq!(err.message, "Method not found: prompts/list");
}

#[test]
fn mcp_call_response_shapes() {
    let ok = call_response(n(1), Ok(ToolOutput { content: Json::Str("done".to_string()), is_error: false }));
    let result = ok.result.unwrap();
    assert!(matches!(result.get("isError"), Some(Json::Bool(false))));
    let item = result.get("content").unwrap().at(0).unwrap();
    assert_eq!(item.get("text").unwrap().as_str(), Some("\"done\""));
    assert_eq!(item.get("type").unwrap().as_str(), Some("text"));
    let failed = call_response(n(2), Err(ToolError::Timeout(30)));
    let result = failed.result.unwrap();
    assert!(matches!(result.get("isError"), Some(Json::Bool(true))));
    let item = result.get("content").unwrap().at(0).unwrap();
    assert_eq!(item.get("text").unwrap().as_str(), Some("Timeout after 30ms"));
}

#[test]
fn a2a_card_url_trims_slashes() {
    assert_eq!(a2a::card_url("http://agent.example//"), "http://agent.example/.well-known/agent.json");
    assert_eq!(a2a::card_url("http://agent.example"), "http://agent.example/.well-known/agent.json");
}

#[test]
fn a2a_requests_and_results() {
    let _client = A2AClient::new();
    let get = a2a::get_task_request("t1");
    assert_eq!(get.get("jsonrpc").unwrap().as_str(), Some("2.0"));
    assert_eq!(get.get("method").unwrap().as_str(), Some("tasks/get"));
    assert_eq!(get.get("params").unwrap().get("id").unwrap().as_str(), Some("t1"));
    let cancel = a2a::cancel_task_request("t2");
    assert_eq!(cancel.get("method").unwrap().as_str(), Some("tasks/cancel"));
    let send = a2a::send_task_request(o(vec![("role", s("user"))]));
    assert_eq!(send.get("method").unwrap().as_str(), Some("tasks/send"));
    let params = send.get("params").unwrap();
    assert!(!params.get("id").unwrap().as_str().unwrap().is_empty());
    assert_eq!(params.get("message").unwrap().get("role").unwrap().as_str(), Some("user"));
    let ok = a2a::task_result(&o(vec![("result", o(vec![("id", s("t1"))]))])).unwrap();
    assert_eq!(ok.get("id").unwrap().as_str(), Some("t1"));
    assert_eq!(a2a::task_result(&o(vec![])).unwrap_err(), "No result in response");
    let caps = AgentCapabilities::default();
    assert!(!caps.streaming && !caps.push_notifications && !caps.state_transition_history);
}

#[test]
fn mcp_server_tool_count_and_context() {
    let srv = server();
    assert_eq!(srv.tool_count(), 1);
    let ctx = lortex::mcp::server_tool_context();
    assert_eq!(ctx.session_id, "mcp");
    assert_eq!(ctx.agent_name, "mcp-server");
    assert!(ctx.messages.is_empty());
}

#[test]
fn json_types_ignore_surrounding_whitespace() {
    assert_eq!(rust_type_to_json_type("\tbool\n"), "boolean");
    assert_eq!(rust_type_to_json_type("\u{3000}u8\u{00A0}"), "integer");
    assert_eq!(rust_type_to_json_type("  "), "object");
}

#[test]
fn tool_identity_defaults() {
    let (n, d) = tool_identity("read_file", None, None);
    assert_eq!(n, "read_file");
    assert_eq!(d, "Tool: read_file");
    let (n, d) = tool_identity("f", Some("reader".to_string()), Some("Reads".to_string()));
    assert_eq!(n, "reader");
    assert_eq!(d, "Reads");
}

#[test]
fn tool_schema_lists_parameters() {
    let schema = tool_parameters_schema(&vec![
        ("path".to_string(), "String".to_string()),
        ("count".to_string(), "u32".to_string()),
    ]);
    assert_eq!(schema.get("type").unwrap().as_str(), Some("object"));
    let props = schema.get("properties").unwrap();
    assert_eq!(props.get("path").unwrap().get("type").unwrap().as_str(), Some("string"));
    assert_eq!(props.get("count").unwrap().get("type").unwrap().as_str(), Some("integer"));
    let required = schema.get("required").unwrap().as_array().unwrap();
    assert_eq!(required.len(), 2);
    assert_eq!(required[0].as_str(), Some("path"));
}

#[test]
fn tool_attributes_are_read() {
    let (n, d) = parse_tool_attributes("name = \"read_file\" , description = \"Read the file.\"");
    assert_eq!(n.as_deref(), Some("read_file"));
    assert_eq!(d.as_deref(), Some("Read the file."));
    let (n, d) = parse_tool_attributes("");
    assert!(n.is_none() && d.is_none());
    let (n, d) = parse_tool_attributes("description=\"x\", name=\"a\", name=\"b\"");
    assert_eq!(n.as_deref(), Some("b"));
    assert_eq!(d.as_deref(), Some("x"));
}
