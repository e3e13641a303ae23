use vstd::prelude::*;

use crate::json::{field, has_text, keys, mirror, or_null, Json};

verus! {

/// One piece of content of a tool result.
#[derive(Debug, Clone)]
pub struct McpToolResultContent {
    pub content_type: String,
    pub text: String,
}

/// Result of a tool invocation.
#[derive(Debug, Clone)]
pub struct McpToolResult {
    pub content: Vec<McpToolResultContent>,
    pub is_error: bool,
}

/// `r` holds one text content piece with the given text.
pub open spec fn is_single_text(r: McpToolResult, text: Seq<char>) -> bool {
    &&& r.content@.len() == 1
    &&& r.content@[0].content_type@ == "text"@
    &&& r.content@[0].text@ == text
}

/// `r` is the result as the tool server sends it: its content pieces, each
/// with `type` and `text`, in order, and `isError`.
pub open spec fn is_result_json(r: Json, result: McpToolResult) -> bool {
    &&& keys(r) == seq!["content"@, "isError"@]
    &&& field(r, "isError"@) == Some(Json::Bool(result.is_error))
    &&& field(r, "content"@) matches Some(Json::Array(items)) && items@.len() == result.content@.len()
        && forall|i: int|
        0 <= i < items@.len() ==> {
            &&& keys(#[trigger] items@[i]) == seq!["type"@, "text"@]
            &&& has_text(items@[i], "type"@, result.content@[i].content_type@)
            &&& has_text(items@[i], "text"@, result.content@[i].text@)
        }
}

impl McpToolResult {
    pub fn text(text: &str) -> (r: Self)
        ensures
            is_single_text(r, text@),
            !r.is_error,
    {
        McpToolResult {
            content: vec![
                McpToolResultContent {
                    content_type: String::from_str("text"),
                    text: String::from_str(text),
                },
            ],
            is_error: false,
        }
    }

    pub fn error(message: &str) -> (r: Self)
        ensures
            is_single_text(r, message@),
            r.is_error,
    {
        McpToolResult {
            content: vec![
                McpToolResultContent {
                    content_type: String::from_str("text"),
                    text: String::from_str(message),
                },
            ],
            is_error: true,
        }
    }

    /// The result as the tool server sends it: its content pieces, each with
    /// `type` and `text`, and `isError`.
    pub fn to_json(&self) -> (r: Json)
        ensures
            is_result_json(r, *self),
    {
        proof {
            reveal_strlit("type");
            reveal_strlit("text");
            reveal_strlit("content");
            reveal_strlit("isError");
            assert("type"@.len() != "text"@.len() || "type"@[1] != "text"@[1]);
            assert("content"@[0] != "isError"@[0]);
        }
        let mut items: Vec<Json> = Vec::new();
        let mut i: usize = 0;
        while i < self.content.len()
            invariant
                i <= self.content@.len(),
                items@.len() == i,
                "type"@ != "text"@,
                forall|m: int|
                    0 <= m < i ==> {
                        &&& keys(#[trigger] items@[m]) == seq!["type"@, "text"@]
                        &&& has_text(items@[m], "type"@, self.content@[m].content_type@)
                        &&& has_text(items@[m], "text"@, self.content@[m].text@)
                    },
            decreases self.content@.len() - i,
        {
            let c = &self.content[i];
            let item = Json::object2(
                "type",
                Json::Str(c.content_type.clone()),
                "text",
                Json::Str(c.text.clone()),
            );
            items.push(item);
            i = i + 1;
        }
        Json::object2("content", Json::Array(items), "isError", Json::Bool(self.is_error))
    }
}

/// A tool of the in-process server: its name, description and input schema,
/// and the handler that the caller supplies.
#[derive(Debug)]
pub struct McpTool<H> {
    pub name: String,
    pub description: String,
    pub input_schema: Json,
    pub handler: H,
}

/// Creates a tool.
pub fn new_tool<H>(name: &str, description: &str, input_schema: Json, handler: H) -> (r: McpTool<H>)
    ensures
        r.name@ == name@,
        r.description@ == description@,
        r.input_schema == input_schema,
        r.handler == handler,
{
    McpTool {
        name: String::from_str(name),
        description: String::from_str(description),
        input_schema,
        handler,
    }
}

/// Action to take after routing a JSON-RPC request.
#[derive(Debug)]
pub enum JsonRpcAction {
    /// Send a response at once.
    Response { id: Option<Json>, result: Json },
    /// Call a tool, then send its result.
    ToolCall { id: Option<Json>, tool_name: String, arguments: Json },
    /// Send an error response.
    Error { id: Option<Json>, code: i64, message: String },
    /// No response (a notification).
    NoResponse,
}

/// The JSON-RPC code for a request that is not one.
pub const INVALID_REQUEST: i64 = -32600;

/// The JSON-RPC code for an unknown method.
pub const METHOD_NOT_FOUND: i64 = -32601;

/// The JSON-RPC code for bad parameters, such as an unknown tool.
pub const INVALID_PARAMS: i64 = -32602;


/// `i` is the last tool with its name: the one that a call by that name
/// reaches.
pub open spec fn is_last_of_name<H>(tools: Seq<McpTool<H>>, i: int) -> bool {
    forall|k: int| i < k < tools.len() ==> (#[trigger] tools[k]).name@ != tools[i].name@
}

/// `r` is the result of `initialize`: the protocol version (2024-11-05), the tools
/// capability, and the server's name and version.
pub open spec fn is_initialize_result(r: Json) -> bool {
    &&& keys(r) == seq!["protocolVersion"@, "capabilities"@, "serverInfo"@]
    &&& has_text(r, "protocolVersion"@, "2024-11-05"@)
    &&& field(r, "capabilities"@) matches Some(c) && keys(c) == seq!["tools"@] && (field(
        c,
        "tools"@,
    ) matches Some(t) && t is Object && keys(t) == Seq::<Seq<char>>::empty())
    &&& field(r, "serverInfo"@) matches Some(s) && has_text(s, "name"@, "agent-control"@) && has_text(
        s,
        "version"@,
        "0.1.0"@,
    )
}

/// `r` is a JSON-RPC success response with the id (null where there is
/// none) and the result.
pub open spec fn is_jsonrpc_response(r: Json, id: Option<Json>, result: Json) -> bool {
    &&& keys(r) == seq!["jsonrpc"@, "id"@, "result"@]
    &&& has_text(r, "jsonrpc"@, "2.0"@)
    &&& field(r, "id"@) == Some(or_null(id))
    &&& field(r, "result"@) == Some(result)
}

/// `r` is a JSON-RPC error response with the id (null where there is none),
/// a numeric code and the message.
pub open spec fn is_jsonrpc_error(r: Json, id: Option<Json>, message: Seq<char>) -> bool {
    &&& keys(r) == seq!["jsonrpc"@, "id"@, "error"@]
    &&& has_text(r, "jsonrpc"@, "2.0"@)
    &&& field(r, "id"@) == Some(or_null(id))
    &&& field(r, "error"@) matches Some(e) && keys(e) == seq!["code"@, "message"@] && (field(
        e,
        "code"@,
    ) matches Some(Json::Number(_))) && has_text(e, "message"@, message)
}

proof fn lemma_jsonrpc_keys()
    ensures
        "jsonrpc"@ != "id"@,
        "jsonrpc"@ != "result"@,
        "jsonrpc"@ != "error"@,
        "id"@ != "result"@,
        "id"@ != "error"@,
        "code"@ != "message"@,
{
    reveal_strlit("jsonrpc");
    reveal_strlit("id");
    reveal_strlit("result");
    reveal_strlit("error");
    reveal_strlit("code");
    reveal_strlit("message");
    assert("jsonrpc"@.len() != "id"@.len());
    assert("jsonrpc"@.len() != "result"@.len());
    assert("jsonrpc"@.len() != "error"@.len());
    assert("id"@.len() != "result"@.len());
    assert("id"@.len() != "error"@.len());
    assert("code"@.len() != "message"@.len());
}

/// Builds a JSON-RPC success response.
pub fn jsonrpc_response(id: Option<Json>, result: Json) -> (r: Json)
    ensures
        is_jsonrpc_response(r, id, result),
{
    proof {
        lemma_jsonrpc_keys();
    }
    let id = match id {
        Some(v) => v,
        None => Json::Null,
    };
    Json::object3("jsonrpc", Json::text("2.0"), "id", id, "result", result)
}

/// Builds a JSON-RPC error response.
pub fn jsonrpc_error(id: Option<Json>, code: i64, message: &str) -> (r: Json)
    ensures
        is_jsonrpc_error(r, id, message@),
{
    proof {
        lemma_jsonrpc_keys();
    }
    let id = match id {
        Some(v) => v,
        None => Json::Null,
    };
    let error = Json::object2("code", Json::Number(serde_json::Number::from(code)), "message", Json::text(message));
    Json::object3("jsonrpc", Json::text("2.0"), "id", id, "error", error)
}

/// `e` lists the tool at `t`: its name, description and a copy of its input
/// schema.
pub open spec fn lists_tool<H>(e: Json, t: McpTool<H>) -> bool {
    &&& keys(e) == seq!["name"@, "description"@, "inputSchema"@]
    &&& has_text(e, "name"@, t.name@)
    &&& has_text(e, "description"@, t.description@)
    &&& field(e, "inputSchema"@) matches Some(s) && mirror(t.input_schema, s)
}

/// The entries of `tools/list`: one for each tool that is the last of its
/// name, in order. `picked[m]` is the index of the tool that entry `m` lists.
pub open spec fn lists_tools<H>(items: Seq<Json>, tools: Seq<McpTool<H>>, picked: Seq<int>) -> bool {
    &&& items.len() == picked.len()
    &&& forall|m: int|
        0 <= m < items.len() ==> 0 <= #[trigger] picked[m] < tools.len() && is_last_of_name(
            tools,
            picked[m],
        ) && lists_tool(items[m], tools[picked[m]])
    &&& forall|m: int, n: int| 0 <= m < n < picked.len() ==> #[trigger] picked[m] < #[trigger] picked[n]
    &&& forall|i: int|
        0 <= i < tools.len() && is_last_of_name(tools, i) ==> exists|m: int|
            0 <= m < picked.len() && #[trigger] picked[m] == i
}

/// What routing a JSON-RPC request gives: nothing for a request without a
/// string `method`, or for a `tools/call` without `params` or without a
/// string tool name; otherwise the action for the method, with the
/// request's id.
pub open spec fn routes_to<H>(request: Json, tools: Seq<McpTool<H>>, r: Option<JsonRpcAction>) -> bool {
    let id = field(request, "id"@);
    match field(request, "method"@) {
        Some(Json::Str(m)) => {
            if m@ == "initialize"@ {
                r matches Some(JsonRpcAction::Response { id: i, result }) && i == id
                    && is_initialize_result(result)
            } else if m@ == "notifications/initialized"@ {
                r == Some(JsonRpcAction::NoResponse)
            } else if m@ == "tools/list"@ {
                r matches Some(JsonRpcAction::Response { id: i, result }) && i == id && keys(result)
                    == seq!["tools"@] && (field(result, "tools"@) matches Some(Json::Array(items))
                    && exists|picked: Seq<int>| lists_tools(items@, tools, picked))
            } else if m@ == "tools/call"@ {
                match field(request, "params"@) {
                    Some(p) => match field(p, "name"@) {
                        Some(Json::Str(name)) => r matches Some(
                            JsonRpcAction::ToolCall { id: i, tool_name, arguments },
                        ) && i == id && tool_name@ == name@ && match field(p, "arguments"@) {
                            Some(a) => arguments == a,
                            None => arguments is Object && keys(arguments) == Seq::<Seq<char>>::empty(),
                        },
                        _ => r is None,
                    },
                    None => r is None,
                }
            } else {
                r matches Some(JsonRpcAction::Error { id: i, code, message }) && i == id && code
                    == METHOD_NOT_FOUND && message@ == "method not found: "@ + m@
            }
        },
        _ => r is None,
    }
}

/// The result of `initialize`.
fn initialize_result() -> (r: Json)
    ensures
        is_initialize_result(r),
{
    proof {
        reveal_strlit("protocolVersion");
        reveal_strlit("capabilities");
        reveal_strlit("serverInfo");
        reveal_strlit("name");
        reveal_strlit("version");
        assert("protocolVersion"@.len() != "capabilities"@.len());
        assert("protocolVersion"@.len() != "serverInfo"@.len());
        assert("capabilities"@.len() != "serverInfo"@.len());
        assert("name"@.len() != "version"@.len());
    }
    let tools = Json::object1("tools", Json::empty_object());
    let info = Json::object2("name", Json::text("agent-control"), "version", Json::text("0.1.0"));
    Json::object3("protocolVersion", Json::text("2024-11-05"), "capabilities", tools, "serverInfo", info)
}

/// The entries of `tools/list`.
fn list_tools<H>(tools: &Vec<McpTool<H>>) -> (r: Vec<Json>)
    ensures
        exists|picked: Seq<int>| lists_tools(r@, tools@, picked),
{
    proof {
        reveal_strlit("name");
        reveal_strlit("description");
        reveal_strlit("inputSchema");
        assert("name"@.len() != "description"@.len());
        assert("name"@.len() != "inputSchema"@.len());
        assert("description"@[0] != "inputSchema"@[0]);
    }
    let mut items: Vec<Json> = Vec::new();
    let ghost mut picked: Seq<int> = Seq::empty();
    let mut i: usize = 0;
    while i < tools.len()
        invariant
            i <= tools@.len(),
            "name"@ != "description"@,
            "name"@ != "inputSchema"@,
            "description"@ != "inputSchema"@,
            items@.len() == picked.len(),
            forall|m: int|
                0 <= m < items@.len() ==> 0 <= #[trigger] picked[m] < i && is_last_of_name(
                    tools@,
                    picked[m],
                ) && lists_tool(items@[m], tools@[picked[m]]),
            forall|m: int, n: int| 0 <= m < n < picked.len() ==> #[trigger] picked[m] < #[trigger] picked[n],
            forall|k: int|
                0 <= k < i && is_last_of_name(tools@, k) ==> exists|m: int|
                    0 <= m < picked.len() && #[trigger] picked[m] == k,
        decreases tools@.len() - i,
    {
        let mut later = false;
        let mut k: usize = i + 1;
        while k < tools.len()
            invariant
                i < k <= tools@.len(),
                later ==> !is_last_of_name(tools@, i as int),
                !later ==> forall|m: int| i < m < k ==> (#[trigger] tools@[m]).name@ != tools@[i as int].name@,
            decreases tools@.len() - k,
        {
            if tools[k].name == tools[i].name {
                later = true;
            }
            k = k + 1;
        }
        if !later {
            let t = &tools[i];
            let entry = Json::object3(
                "name",
                Json::Str(t.name.clone()),
                "description",
                Json::Str(t.description.clone()),
                "inputSchema",
                t.input_schema.deep_copy(),
            );
            items.push(entry);
            proof {
                let old_picked = picked;
                picked = picked.push(i as int);
                assert forall|k2: int| 0 <= k2 < i + 1 && is_last_of_name(tools@, k2) implies exists|m: int|
                    0 <= m < picked.len() && #[trigger] picked[m] == k2 by {
                    if k2 == i {
                        assert(picked[picked.len() - 1] == k2);
                    } else {
                        let m = choose|m: int| 0 <= m < old_picked.len() && #[trigger] old_picked[m] == k2;
                        assert(picked[m] == k2);
                    }
                }
            }
        }
        i = i + 1;
    }
    assert(lists_tools(items@, tools@, picked));
    items
}

/// Routes a JSON-RPC request of the tool server by its method.
pub fn route_jsonrpc<H>(request: Json, tools: &Vec<McpTool<H>>) -> (r: Option<JsonRpcAction>)
    ensures
        routes_to(request, tools@, r),
{
    let ghost incoming = request;
    let mut request = request;
    proof {
        reveal_strlit("method");
        reveal_strlit("id");
        reveal_strlit("params");
        assert("method"@.len() != "id"@.len());
        assert("params"@.len() != "id"@.len());
        reveal_strlit("initialize");
        reveal_strlit("notifications/initialized");
        reveal_strlit("tools/list");
        reveal_strlit("tools/call");
        assert("initialize"@.len() != "notifications/initialized"@.len());
        assert("initialize"@.len() != "tools/list"@.len() || "initialize"@[0] != "tools/list"@[0]);
        assert("initialize"@.len() != "tools/call"@.len() || "initialize"@[0] != "tools/call"@[0]);
        assert("notifications/initialized"@.len() != "tools/list"@.len());
        assert("notifications/initialized"@.len() != "tools/call"@.len());
        assert("tools/list"@[6] != "tools/call"@[6]);
    }
    let method = match request.get("method") {
        Some(Json::Str(m)) => m.clone(),
        _ => {
            return None;
        },
    };
    let id = request.take("id");
    if method == String::from_str("initialize") {
        Some(JsonRpcAction::Response { id, result: initialize_result() })
    } else if method == String::from_str("notifications/initialized") {
        Some(JsonRpcAction::NoResponse)
    } else if method == String::from_str("tools/list") {
        proof {
            reveal_strlit("tools");
        }
        let items = list_tools(tools);
        let ghost iv = items@;
        let arr = Json::Array(items);
        assert(arr matches Json::Array(its) && its@ == iv);
        let result = Json::object1("tools", arr);
        let r = Some(JsonRpcAction::Response { id, result });
        proof {
            let picked = choose|p: Seq<int>| lists_tools(iv, tools@, p);
            assert(field(result, "tools"@) == Some(arr));
            assert(keys(result) == seq!["tools"@]);
            assert(lists_tools(iv, tools@, picked));
        }
        assert(routes_to(incoming, tools@, r));
        r
    } else if method == String::from_str("tools/call") {
        let mut params = match request.take("params") {
            Some(p) => p,
            None => {
                return None;
            },
        };
        proof {
            reveal_strlit("name");
            reveal_strlit("arguments");
            assert("name"@.len() != "arguments"@.len());
        }
        let tool_name = match params.get("name") {
            Some(Json::Str(n)) => n.clone(),
            _ => {
                return None;
            },
        };
        let arguments = match params.take("arguments") {
            Some(a) => a,
            None => Json::empty_object(),
        };
        Some(JsonRpcAction::ToolCall { id, tool_name, arguments })
    } else {
        let message = String::from_str("method not found: ").concat(method.as_str());
        Some(JsonRpcAction::Error { id, code: METHOD_NOT_FOUND, message })
    }
}

/// An in-process tool server.
pub struct SdkMcpServer<H> {
    tools: Vec<McpTool<H>>,
}

/// What the tool server does with a message.
#[derive(Debug)]
pub enum ServerStep {
    /// Send this at once.
    Reply(Json),
    /// Run the handler of the tool at `index` on the arguments, then send
    /// its result under `id`.
    CallTool { index: usize, id: Option<Json>, arguments: Json },
}

/// The step for a routed request: the response or error it calls for, or a
/// call of the tool that a `tools/call` names (the last registered under
/// that name), or an error for an unknown tool.
pub open spec fn step_for<H>(a: JsonRpcAction, tools: Seq<McpTool<H>>, step: ServerStep) -> bool {
    match a {
        JsonRpcAction::Response { id, result } => step matches ServerStep::Reply(b)
            && is_jsonrpc_response(b, id, result),
        JsonRpcAction::Error { id, code, message } => step matches ServerStep::Reply(b)
            && is_jsonrpc_error(b, id, message@),
        JsonRpcAction::NoResponse => step == ServerStep::Reply(Json::Null),
        JsonRpcAction::ToolCall { id, tool_name, arguments } => {
            if exists|i: int| 0 <= i < tools.len() && (#[trigger] tools[i]).name@ == tool_name@ {
                step matches ServerStep::CallTool { index, id: i2, arguments: a2 } && index
                    < tools.len() && tools[index as int].name@ == tool_name@ && is_last_of_name(
                    tools,
                    index as int,
                ) && i2 == id && a2 == arguments
            } else {
                step matches ServerStep::Reply(b) && is_jsonrpc_error(
                    b,
                    id,
                    "unknown tool: "@ + tool_name@,
                )
            }
        },
    }
}

impl<H> SdkMcpServer<H> {
    /// The tools, in registration order; a call by name reaches the last
    /// one registered under that name.
    pub closed spec fn spec_tools(&self) -> Seq<McpTool<H>> {
        self.tools@
    }

    pub fn new(tools: Vec<McpTool<H>>) -> (r: Self)
        ensures
            r.spec_tools() == tools@,
    {
        SdkMcpServer { tools }
    }

    pub fn tool_list(&self) -> (r: &Vec<McpTool<H>>)
        ensures
            r@ == self.spec_tools(),
    {
        &self.tools
    }

    /// The index of the last tool registered under `name`.
    pub fn find_tool(&self, name: &str) -> (r: Option<usize>)
        ensures
            match r {
                Some(i) => i < self.spec_tools().len() && self.spec_tools()[i as int].name@ == name@
                    && is_last_of_name(self.spec_tools(), i as int),
                None => forall|i: int|
                    0 <= i < self.spec_tools().len() ==> (#[trigger] self.spec_tools()[i]).name@ != name@,
            },
    {
        let wanted = String::from_str(name);
        let mut k: usize = self.tools.len();
        while k > 0
            invariant
                k <= self.tools@.len(),
                wanted@ == name@,
                forall|m: int| k <= m < self.tools@.len() ==> (#[trigger] self.tools@[m]).name@ != name@,
            decreases k,
        {
            k = k - 1;
            if self.tools[k].name == wanted {
                return Some(k);
            }
        }
        None
    }

    /// Routes one message of the tool server. A message that is no request
    /// (no string method, or a tool call without a tool name) gets an
    /// invalid-request error under the message's id.
    pub fn route_message(&self, message: Json) -> (r: ServerStep)
        ensures
            exists|a: Option<JsonRpcAction>|
                #![trigger routes_to(message, self.spec_tools(), a)]
                routes_to(message, self.spec_tools(), a) && match a {
                    Some(action) => step_for(action, self.spec_tools(), r),
                    None => r matches ServerStep::Reply(b) && (field(b, "error"@) matches Some(e)
                        && has_text(e, "message"@, "invalid request"@)) && (field(b, "id"@) matches Some(
                        x,
                    ) && mirror(or_null(field(message, "id"@)), x)),
                },
    {
        proof {
            reveal_strlit("id");
        }
        let id_copy = match message.get("id") {
            Some(v) => v.deep_copy(),
            None => Json::Null,
        };
        let ghost incoming = message;
        let routed = route_jsonrpc(message, &self.tools);
        let ghost a = routed;
        let step = match routed {
            None => ServerStep::Reply(jsonrpc_error(Some(id_copy), INVALID_REQUEST, "invalid request")),
            Some(JsonRpcAction::Response { id, result }) => ServerStep::Reply(jsonrpc_response(id, result)),
            Some(JsonRpcAction::Error { id, code, message }) => ServerStep::Reply(
                jsonrpc_error(id, code, message.as_str()),
            ),
            Some(JsonRpcAction::NoResponse) => ServerStep::Reply(Json::Null),
            Some(JsonRpcAction::ToolCall { id, tool_name, arguments }) => {
                match self.find_tool(tool_name.as_str()) {
                    Some(index) => ServerStep::CallTool { index, id, arguments },
                    None => {
                        let text = String::from_str("unknown tool: ").concat(tool_name.as_str());
                        ServerStep::Reply(jsonrpc_error(id, INVALID_PARAMS, text.as_str()))
                    },
                }
            },
        };
        assert(routes_to(incoming, self.spec_tools(), a));
        step
    }

    /// The response that carries a tool's result.
    pub fn tool_reply(id: Option<Json>, result: &McpToolResult) -> (r: Json)
        ensures
            field(r, "result"@) matches Some(body) && is_result_json(body, *result),
            keys(r) == seq!["jsonrpc"@, "id"@, "result"@],
            has_text(r, "jsonrpc"@, "2.0"@),
            field(r, "id"@) == Some(or_null(id)),
    {
        jsonrpc_response(id, result.to_json())
    }
}

} // verus!
