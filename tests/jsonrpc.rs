use agent_control::json::Json;
use agent_control::mcp::{new_tool, route_jsonrpc, JsonRpcAction, McpTool, McpToolResult, SdkMcpServer, ServerStep};

fn num(n: i64) -> Json {
    Json::Number(serde_json::Number::from(n))
}

fn obj(members: Vec<(&str, Json)>) -> Json {
    Json::Object(members.into_iter().map(|(k, v)| (k.to_string(), v)).collect())
}

fn s(t: &str) -> Json {
    Json::Str(t.to_string())
}

fn to_value(j: &Json) -> serde_json::Value {
    let text = agent_control::codec::encode_frame(j);
    serde_json::from_str(&text).unwrap()
}

fn noop_tool(name: &str, description: &str) -> McpTool<()> {
    new_tool(name, description, obj(vec![("type", s("object"))]), ())
}

#[test]
fn route_initialize() {
    let req = obj(vec![("jsonrpc", s("2.0")), ("id", num(1)), ("method", s("initialize")), ("params", obj(vec![]))]);
    let tools: Vec<McpTool<()>> = vec![];
    let action = route_jsonrpc(req, &tools).unwrap();
    assert!(matches!(action, JsonRpcAction::Response { .. }));
}

#[test]
fn route_tools_list() {
    let tools = vec![noop_tool("calc", "calculator")];
    let req = obj(vec![("jsonrpc", s("2.0")), ("id", num(2)), ("method", s("tools/list"))]);
    let action = route_jsonrpc(req, &tools).unwrap();
    match action {
        JsonRpcAction::Response { result, .. } => {
            let result = to_value(&result);
            let listed = result["tools"].as_array().unwrap();
            assert_eq!(listed.len(), 1);
            assert_eq!(listed[0]["name"], "calc");
        }
        _ => panic!("expected Response"),
    }
}

#[test]
fn route_tools_call() {
    let req = obj(vec![
        ("jsonrpc", s("2.0")),
        ("id", num(3)),
        ("method", s("tools/call")),
        ("params", obj(vec![("name", s("calc")), ("arguments", obj(vec![("a", num(1))]))])),
    ]);
    let tools: Vec<McpTool<()>> = vec![];
    let action = route_jsonrpc(req, &tools).unwrap();
    match action {
        JsonRpcAction::ToolCall { tool_name, arguments, .. } => {
            assert_eq!(tool_name, "calc");
            assert_eq!(to_value(&arguments)["a"], 1);
        }
        _ => panic!("expected ToolCall"),
    }
}

#[test]
fn route_unknown_method() {
    let req = obj(vec![("jsonrpc", s("2.0")), ("id", num(4)), ("method", s("foo/bar"))]);
    let tools: Vec<McpTool<()>> = vec![];
    let action = route_jsonrpc(req, &tools).unwrap();
    assert!(matches!(action, JsonRpcAction::Error { .. }));
}

#[test]
fn route_unknown_method_code_and_message() {
    let req = obj(vec![("id", num(4)), ("method", s("foo/bar"))]);
    let tools: Vec<McpTool<()>> = vec![];
    match route_jsonrpc(req, &tools) {
        Some(JsonRpcAction::Error { code, message, .. }) => {
            assert_eq!(code, -32601);
            assert_eq!(message, "method not found: foo/bar");
        }
        _ => panic!("expected Error"),
    }
}

#[test]
fn route_without_method_is_no_request() {
    let tools: Vec<McpTool<()>> = vec![];
    assert!(route_jsonrpc(obj(vec![("id", num(1))]), &tools).is_none());
    assert!(route_jsonrpc(obj(vec![("method", num(1))]), &tools).is_none());
}

#[test]
fn route_tools_call_without_arguments_gets_empty_object() {
    let req = obj(vec![("id", num(3)), ("method", s("tools/call")), ("params", obj(vec![("name", s("calc"))]))]);
    let tools: Vec<McpTool<()>> = vec![];
    match route_jsonrpc(req, &tools) {
        Some(JsonRpcAction::ToolCall { arguments, .. }) => {
            assert_eq!(to_value(&arguments), serde_json::Value::Object(serde_json::Map::new()));
        }
        _ => panic!("expected ToolCall"),
    }
}

#[test]
fn sdk_mcp_server_handles_initialize() {
    let server: SdkMcpServer<()> = SdkMcpServer::new(vec![]);
    let req = obj(vec![("jsonrpc", s("2.0")), ("id", num(1)), ("method", s("initialize")), ("params", obj(vec![]))]);
    match server.route_message(req) {
        ServerStep::Reply(resp) => {
            let resp = to_value(&resp);
            assert!(resp.get("result").is_some());
            assert_eq!(resp["result"]["capabilities"]["tools"], serde_json::Value::Object(serde_json::Map::new()));
            assert_eq!(resp["result"]["protocolVersion"], "2024-11-05");
            assert_eq!(resp["id"], 1);
        }
        _ => panic!("expected Reply"),
    }
}

#[test]
fn sdk_mcp_server_lists_tools() {
    let server = SdkMcpServer::new(vec![noop_tool("add", "Add two numbers")]);
    let req = obj(vec![("jsonrpc", s("2.0")), ("id", num(2)), ("method", s("tools/list"))]);
    match server.route_message(req) {
        ServerStep::Reply(resp) => {
            let resp = to_value(&resp);
            let tools = resp["result"]["tools"].as_array().unwrap();
            assert_eq!(tools.len(), 1);
            assert_eq!(tools[0]["name"], "add");
            assert_eq!(tools[0]["inputSchema"]["type"], "object");
        }
        _ => panic!("expected Reply"),
    }
}

#[test]
fn sdk_mcp_server_calls_tool() {
    let server = SdkMcpServer::new(vec![noop_tool("add", "Add two numbers")]);
    let req = obj(vec![
        ("jsonrpc", s("2.0")),
        ("id", num(3)),
        ("method", s("tools/call")),
        ("params", obj(vec![("name", s("add")), ("arguments", obj(vec![("a", num(2)), ("b", num(3))]))])),
    ]);
    match server.route_message(req) {
        ServerStep::CallTool { index, id, arguments } => {
            assert_eq!(index, 0);
            let args = to_value(&arguments);
            let sum = args["a"].as_i64().unwrap() + args["b"].as_i64().unwrap();
            let result = McpToolResult::text(&sum.to_string());
            let resp = to_value(&SdkMcpServer::<()>::tool_reply(id, &result));
            assert_eq!(resp["result"]["content"][0]["text"], "5");
            assert_eq!(resp["result"]["isError"], false);
            assert_eq!(resp["id"], 3);
        }
        _ => panic!("expected CallTool"),
    }
}

#[test]
fn sdk_mcp_server_unknown_tool() {
    let server: SdkMcpServer<()> = SdkMcpServer::new(vec![]);
    let req = obj(vec![
        ("jsonrpc", s("2.0")),
        ("id", num(4)),
        ("method", s("tools/call")),
        ("params", obj(vec![("name", s("missing")), ("arguments", obj(vec![]))])),
    ]);
    match server.route_message(req) {
        ServerStep::Reply(resp) => {
            let resp = to_value(&resp);
            assert!(resp.get("error").is_some());
            assert_eq!(resp["error"]["code"], -32602);
            assert_eq!(resp["error"]["message"], "unknown tool: missing");
        }
        _ => panic!("expected Reply"),
    }
}

#[test]
fn sdk_mcp_server_invalid_request_keeps_id() {
    let server: SdkMcpServer<()> = SdkMcpServer::new(vec![]);
    match server.route_message(obj(vec![("id", num(9))])) {
        ServerStep::Reply(resp) => {
            let resp = to_value(&resp);
            assert_eq!(resp["error"]["code"], -32600);
            assert_eq!(resp["error"]["message"], "invalid request");
            assert_eq!(resp["id"], 9);
        }
        _ => panic!("expected Reply"),
    }
}

#[test]
fn sdk_mcp_server_later_tool_of_same_name_wins() {
    let server = SdkMcpServer::new(vec![noop_tool("add", "first"), noop_tool("add", "second")]);
    assert_eq!(server.find_tool("add"), Some(1));
    match server.route_message(obj(vec![("id", num(2)), ("method", s("tools/list"))])) {
        ServerStep::Reply(resp) => {
            let resp = to_value(&resp);
            let tools = resp["result"]["tools"].as_array().unwrap();
            assert_eq!(tools.len(), 1);
            assert_eq!(tools[0]["description"], "second");
        }
        _ => panic!("expected Reply"),
    }
}

#[test]
fn notification_gets_no_response() {
    let server: SdkMcpServer<()> = SdkMcpServer::new(vec![]);
    match server.route_message(obj(vec![("method", s("notifications/initialized"))])) {
        ServerStep::Reply(Json::Null) => {}
        _ => panic!("expected a null reply"),
    }
}

#[test]
fn tool_result_error_json() {
    let r = McpToolResult::error("boom");
    let v = to_value(&r.to_json());
    assert_eq!(v["isError"], true);
    assert_eq!(v["content"][0]["type"], "text");
    assert_eq!(v["content"][0]["text"], "boom");
}
