use vstd::prelude::*;

use crate::json::{field, has_text, keys, lemma_field_absent, Json};

verus! {

/// A control command sent to the child process: its subtype and the
/// members that go with it.
#[derive(Debug)]
pub struct SDKControlCommand {
    pub command_type: String,
    pub params: Json,
}

/// A command with the given subtype and no further members.
pub open spec fn is_bare_command(c: SDKControlCommand, subtype: Seq<char>) -> bool {
    &&& c.command_type@ == subtype
    &&& c.params is Object
    &&& keys(c.params) == Seq::<Seq<char>>::empty()
}

/// A command with the given subtype and the one string member `k`.
pub open spec fn is_command_with(c: SDKControlCommand, subtype: Seq<char>, k: Seq<char>, v: Seq<char>) -> bool {
    &&& c.command_type@ == subtype
    &&& keys(c.params) == seq![k]
    &&& has_text(c.params, k, v)
}

impl SDKControlCommand {
    pub fn interrupt() -> (r: Self)
        ensures
            is_bare_command(r, "interrupt"@),
    {
        SDKControlCommand { command_type: String::from_str("interrupt"), params: Json::empty_object() }
    }

    pub fn set_permission_mode(mode: &str) -> (r: Self)
        ensures
            is_command_with(r, "set_permission_mode"@, "mode"@, mode@),
    {
        SDKControlCommand {
            command_type: String::from_str("set_permission_mode"),
            params: Json::object1("mode", Json::text(mode)),
        }
    }

    pub fn set_model(model: &str) -> (r: Self)
        ensures
            is_command_with(r, "set_model"@, "model"@, model@),
    {
        SDKControlCommand {
            command_type: String::from_str("set_model"),
            params: Json::object1("model", Json::text(model)),
        }
    }

    pub fn rewind_files(user_message_id: &str) -> (r: Self)
        ensures
            is_command_with(r, "rewind_files"@, "user_message_id"@, user_message_id@),
    {
        SDKControlCommand {
            command_type: String::from_str("rewind_files"),
            params: Json::object1("user_message_id", Json::text(user_message_id)),
        }
    }

    pub fn get_mcp_status() -> (r: Self)
        ensures
            is_bare_command(r, "get_mcp_status"@),
    {
        SDKControlCommand { command_type: String::from_str("get_mcp_status"), params: Json::empty_object() }
    }
}

/// Capabilities that the engine announces in the init handshake.
#[derive(Debug)]
pub struct SDKCapabilities {
    pub hooks: bool,
    pub permissions: bool,
    pub mcp: bool,
    pub agent_definitions: Vec<Json>,
    pub mcp_servers: Vec<Json>,
}

/// Init handshake message.
#[derive(Debug)]
pub struct SDKInitMessage {
    pub msg_type: String,
    pub protocol_version: String,
    pub capabilities: Option<SDKCapabilities>,
}

impl SDKInitMessage {
    pub fn new(capabilities: SDKCapabilities) -> (r: Self)
        ensures
            r.msg_type@ == "sdk_init"@,
            r.protocol_version@ == "1"@,
            r.capabilities == Some(capabilities),
    {
        SDKInitMessage {
            msg_type: String::from_str("sdk_init"),
            protocol_version: String::from_str("1"),
            capabilities: Some(capabilities),
        }
    }
}

/// Init response from the child process.
#[derive(Debug, Clone)]
pub struct SDKInitResponse {
    pub msg_type: String,
    pub protocol_version: Option<String>,
    pub session_id: Option<String>,
}

/// `r` is a control request frame with the given id and subtype, whose
/// request carries the members of `params` under every other key.
pub open spec fn is_control_request(r: Json, id: Seq<char>, subtype: Seq<char>, params: Json) -> bool {
    &&& keys(r) == seq!["type"@, "request_id"@, "request"@]
    &&& has_text(r, "type"@, "control_request"@)
    &&& has_text(r, "request_id"@, id)
    &&& field(r, "request"@) matches Some(q) && {
        &&& has_text(q, "subtype"@, subtype)
        &&& forall|k: Seq<char>| k != "subtype"@ ==> field(q, k) == field(params, k)
    }
}

/// Builds the frame that sends a control request.
pub fn control_request_frame(request_id: &str, subtype: &str, params: Json) -> (r: Json)
    ensures
        is_control_request(r, request_id@, subtype@, params),
{
    proof {
        reveal_strlit("type");
        reveal_strlit("request_id");
        reveal_strlit("request");
        assert("type"@.len() != "request_id"@.len() || "type"@[0] != "request_id"@[0]);
        assert("type"@.len() != "request"@.len() || "type"@[0] != "request"@[0]);
        assert("request_id"@.len() != "request"@.len() || "request_id"@[0] != "request"@[0]);
    }
    let request = Json::object_with_first("subtype", Json::text(subtype), params);
    Json::object3(
        "type",
        Json::text("control_request"),
        "request_id",
        Json::text(request_id),
        "request",
        request,
    )
}

/// Builds the frame that sends a control command.
pub fn command_frame(request_id: &str, command: SDKControlCommand) -> (r: Json)
    ensures
        is_control_request(r, request_id@, command.command_type@, command.params),
{
    control_request_frame(request_id, command.command_type.as_str(), command.params)
}

/// `r` is a successful control response frame for the request `id`,
/// carrying `body`.
pub open spec fn is_control_response(r: Json, id: Seq<char>, body: Json) -> bool {
    &&& keys(r) == seq!["type"@, "response"@]
    &&& has_text(r, "type"@, "control_response"@)
    &&& field(r, "response"@) matches Some(p) && {
        &&& keys(p) == seq!["subtype"@, "request_id"@, "response"@]
        &&& has_text(p, "subtype"@, "success"@)
        &&& has_text(p, "request_id"@, id)
        &&& field(p, "response"@) == Some(body)
    }
}

/// Builds the frame that answers a control request of the child process.
pub fn control_response_frame(request_id: &str, body: Json) -> (r: Json)
    ensures
        is_control_response(r, request_id@, body),
{
    proof {
        reveal_strlit("type");
        reveal_strlit("response");
        reveal_strlit("subtype");
        reveal_strlit("request_id");
        reveal_strlit("success");
        reveal_strlit("control_response");
        assert("subtype"@.len() != "request_id"@.len() || "subtype"@[0] != "request_id"@[0]);
        assert("subtype"@.len() != "response"@.len() || "subtype"@[0] != "response"@[0]);
        assert("request_id"@.len() != "response"@.len() || "request_id"@[0] != "response"@[0]);
        assert("type"@.len() != "response"@.len() || "type"@[0] != "response"@[0]);
    }
    let inner = Json::object3(
        "subtype",
        Json::text("success"),
        "request_id",
        Json::text(request_id),
        "response",
        body,
    );
    Json::object2("type", Json::text("control_response"), "response", inner)
}

/// `r` is a user message frame with the prompt and the session id, null
/// where there is none.
pub open spec fn is_user_message(r: Json, prompt: Seq<char>, session_id: Option<Seq<char>>) -> bool {
    &&& keys(r) == seq!["type"@, "message"@, "session_id"@, "parent_tool_use_id"@]
    &&& has_text(r, "type"@, "user"@)
    &&& field(r, "message"@) matches Some(m) && {
        &&& keys(m) == seq!["role"@, "content"@]
        &&& has_text(m, "role"@, "user"@)
        &&& has_text(m, "content"@, prompt)
    }
    &&& match session_id {
        Some(s) => has_text(r, "session_id"@, s),
        None => field(r, "session_id"@) == Some(Json::Null),
    }
    &&& field(r, "parent_tool_use_id"@) == Some(Json::Null)
}

/// Builds the frame that sends a prompt.
pub fn user_message_frame(prompt: &str, session_id: Option<&str>) -> (r: Json)
    ensures
        is_user_message(
            r,
            prompt@,
            match session_id {
                Some(s) => Some(s@),
                None => None,
            },
        ),
{
    proof {
        reveal_strlit("type");
        reveal_strlit("message");
        reveal_strlit("session_id");
        reveal_strlit("parent_tool_use_id");
        reveal_strlit("role");
        reveal_strlit("content");
        assert("role"@.len() != "content"@.len() || "role"@[0] != "content"@[0]);
        assert("type"@.len() != "message"@.len() || "type"@[0] != "message"@[0]);
        assert("type"@.len() != "session_id"@.len() || "type"@[0] != "session_id"@[0]);
        assert("type"@.len() != "parent_tool_use_id"@.len() || "type"@[0] != "parent_tool_use_id"@[0]);
        assert("message"@.len() != "session_id"@.len() || "message"@[0] != "session_id"@[0]);
        assert("message"@.len() != "parent_tool_use_id"@.len() || "message"@[0] != "parent_tool_use_id"@[0]);
        assert("session_id"@.len() != "parent_tool_use_id"@.len() || "session_id"@[0] != "parent_tool_use_id"@[0]);
    }
    let message = Json::object2("role", Json::text("user"), "content", Json::text(prompt));
    let session = match session_id {
        Some(s) => Json::text(s),
        None => Json::Null,
    };
    Json::object4(
        "type",
        Json::text("user"),
        "message",
        message,
        "session_id",
        session,
        "parent_tool_use_id",
        Json::Null,
    )
}

/// `c` announces the three capability flags, and the agent definitions and
/// server entries where there are any.
pub open spec fn announces(c: Json, caps: SDKCapabilities) -> bool {
    &&& field(c, "hooks"@) == Some(Json::Bool(caps.hooks))
    &&& field(c, "permissions"@) == Some(Json::Bool(caps.permissions))
    &&& field(c, "mcp"@) == Some(Json::Bool(caps.mcp))
    &&& (caps.agent_definitions@.len() == 0 <==> field(c, "agent_definitions"@) is None)
    &&& (caps.mcp_servers@.len() == 0 <==> field(c, "mcp_servers"@) is None)
}

/// Builds the init handshake request: protocol version 1 and the
/// capabilities.
pub fn initialize_frame(request_id: &str, caps: SDKCapabilities) -> (r: Json)
    ensures
        field(r, "request"@) matches Some(q) && {
            &&& has_text(q, "subtype"@, "initialize"@)
            &&& has_text(q, "protocol_version"@, "1"@)
            &&& field(q, "capabilities"@) matches Some(c) && announces(c, caps)
        },
        keys(r) == seq!["type"@, "request_id"@, "request"@],
        has_text(r, "type"@, "control_request"@),
        has_text(r, "request_id"@, request_id@),
{
    proof {
        reveal_strlit("hooks");
        reveal_strlit("permissions");
        reveal_strlit("mcp");
        reveal_strlit("agent_definitions");
        reveal_strlit("mcp_servers");
        reveal_strlit("subtype");
        reveal_strlit("protocol_version");
        reveal_strlit("capabilities");
        assert("hooks"@.len() != "permissions"@.len() || "hooks"@[0] != "permissions"@[0]);
        assert("hooks"@.len() != "mcp"@.len() || "hooks"@[0] != "mcp"@[0]);
        assert("permissions"@.len() != "mcp"@.len() || "permissions"@[0] != "mcp"@[0]);
        assert("protocol_version"@.len() != "capabilities"@.len() || "protocol_version"@[0] != "capabilities"@[0]);
        assert("mcp_servers"@.len() != "hooks"@.len() || "mcp_servers"@[0] != "hooks"@[0]);
        assert("mcp_servers"@.len() != "permissions"@.len() || "mcp_servers"@[0] != "permissions"@[0]);
        assert("mcp_servers"@.len() != "mcp"@.len() || "mcp_servers"@[0] != "mcp"@[0]);
        assert("agent_definitions"@.len() != "mcp_servers"@.len() || "agent_definitions"@[0] != "mcp_servers"@[0]);
        assert("agent_definitions"@.len() != "hooks"@.len() || "agent_definitions"@[0] != "hooks"@[0]);
        assert("agent_definitions"@.len() != "permissions"@.len() || "agent_definitions"@[0] != "permissions"@[0]);
        assert("agent_definitions"@.len() != "mcp"@.len() || "agent_definitions"@[0] != "mcp"@[0]);
    }
    let mut c = Json::object3(
        "hooks",
        Json::Bool(caps.hooks),
        "permissions",
        Json::Bool(caps.permissions),
        "mcp",
        Json::Bool(caps.mcp),
    );
    proof {
        assert(!keys(c).contains("agent_definitions"@));
        assert(!keys(c).contains("mcp_servers"@));
        lemma_field_absent(c, "agent_definitions"@);
        lemma_field_absent(c, "mcp_servers"@);
        assert("protocol_version"@.len() != "subtype"@.len());
        assert("capabilities"@.len() != "subtype"@.len());
    }
    if caps.mcp_servers.len() > 0 {
        c = Json::object_with_first("mcp_servers", Json::Array(caps.mcp_servers), c);
    }
    if caps.agent_definitions.len() > 0 {
        c = Json::object_with_first("agent_definitions", Json::Array(caps.agent_definitions), c);
    }
    let params = Json::object2("protocol_version", Json::text("1"), "capabilities", c);
    control_request_frame(request_id, "initialize", params)
}

} // verus!
