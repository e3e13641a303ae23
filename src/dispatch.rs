use vstd::prelude::*;

use crate::control::{control_response_frame, is_control_response};
use crate::hooks::{
    callback_index, decimal, hook_input_for, lemma_callback_index_of_decimal, payload_matches, permissive_hook_reply, parse_callback_index,
    HookDefinition, HookEvent, HookInput,
};
use crate::json::{field, has_text, keys, or_null, text_or_empty, Json};
use crate::permissions::{is_allow_reply, permission_reply, CanUseToolInput};

verus! {

/// What the engine does with a control request of the child process.
#[derive(Debug)]
pub enum DispatchStep {
    /// Ask the permission check about a tool use.
    AskPermission(CanUseToolInput),
    /// Run the registered hook at `index`, whose event is `event`.
    RunHook { index: usize, event: HookEvent, input: HookInput },
    /// Hand a message to the named in-process tool server.
    ForwardMcp { server_name: String, message: Json },
    /// Answer at once with this body.
    Reply(Json),
}

/// A control request of the child process, read: the id to answer under and
/// what to do.
#[derive(Debug)]
pub struct ControlPlan {
    pub request_id: String,
    pub step: DispatchStep,
}

/// `r` is an error body with the given message.
pub open spec fn is_error_reply(r: Json, message: Seq<char>) -> bool {
    &&& keys(r) == seq!["error"@]
    &&& has_text(r, "error"@, message)
}

/// An error body with the given message.
pub fn error_reply(message: String) -> (r: Json)
    ensures
        is_error_reply(r, message@),
{
    Json::object1("error", Json::Str(message))
}

/// The JSON-RPC code for a method that is not known.
pub const METHOD_NOT_FOUND: i64 = -32601;

/// `r` reports a subtype that the engine does not know.
pub open spec fn is_unknown_subtype_reply(r: Json, subtype: Seq<char>) -> bool {
    &&& keys(r) == seq!["error"@, "code"@]
    &&& has_text(r, "error"@, "unknown subtype: "@ + subtype)
    &&& field(r, "code"@) matches Some(Json::Number(_))
}

/// The body that answers a control request of an unknown subtype.
pub fn unknown_subtype_reply(subtype: &str) -> (r: Json)
    ensures
        is_unknown_subtype_reply(r, subtype@),
{
    proof {
        reveal_strlit("error");
        reveal_strlit("code");
        assert("error"@.len() != "code"@.len());
    }
    let message = String::from_str("unknown subtype: ").concat(subtype);
    let code = serde_json::Number::from(METHOD_NOT_FOUND);
    Json::object2("error", Json::Str(message), "code", Json::Number(code))
}

/// The body that answers a tool-server message for a server that is not
/// registered.
pub fn unknown_mcp_server_reply(server_name: &str) -> (r: Json)
    ensures
        is_error_reply(r, "unknown MCP server: "@ + server_name@),
{
    error_reply(String::from_str("unknown MCP server: ").concat(server_name))
}

/// The events of the registered hooks, in registration order.
pub open spec fn hook_events<C>(hooks: Seq<HookDefinition<C>>) -> Seq<HookEvent> {
    hooks.map_values(|h: HookDefinition<C>| h.event)
}

/// The step that a control request calls for.
pub open spec fn step_matches(
    frame: Json,
    events: Seq<HookEvent>,
    has_permission: bool,
    has_mcp: bool,
    step: DispatchStep,
) -> bool {
    match field(frame, "request"@) {
        None => step matches DispatchStep::Reply(b) && is_error_reply(b, "missing request"@),
        Some(q) => {
            let subtype = text_or_empty(field(q, "subtype"@));
            if subtype == "can_use_tool"@ {
                if has_permission {
                    step matches DispatchStep::AskPermission(p) && p.tool_name@ == text_or_empty(
                        field(q, "tool_name"@),
                    ) && p.input == or_null(field(q, "input"@))
                } else {
                    step matches DispatchStep::Reply(b) && is_allow_reply(b)
                }
            } else if subtype == "hook_callback"@ {
                match callback_index(text_or_empty(field(q, "callback_id"@))) {
                    Some(i) if i < events.len() => step matches DispatchStep::RunHook {
                        index,
                        event,
                        input,
                    } && index == i && event == events[i as int] && payload_matches(
                        event,
                        or_null(field(q, "input"@)),
                        input,
                    ),
                    _ => step matches DispatchStep::Reply(b) && keys(b) == seq!["continue"@] && field(
                        b,
                        "continue"@,
                    ) == Some(Json::Bool(true)),
                }
            } else if subtype == "mcp_message"@ {
                if has_mcp {
                    step matches DispatchStep::ForwardMcp { server_name, message }
                        && server_name@ == text_or_empty(field(q, "server_name"@)) && message
                        == or_null(field(q, "message"@))
                } else {
                    step matches DispatchStep::Reply(b) && is_error_reply(
                        b,
                        "no MCP handler registered"@,
                    )
                }
            } else {
                step matches DispatchStep::Reply(b) && is_unknown_subtype_reply(b, subtype)
            }
        },
    }
}

/// Reads a control request of the child process and decides what answers
/// it: the permission check, the hook that its callback id names, the tool
/// server, or a reply made at once. Every request is answered, so a missing
/// capability, an unknown hook and an unknown subtype each get a body too.
pub fn plan_control_request<C>(
    frame: Json,
    hooks: &Vec<HookDefinition<C>>,
    has_permission: bool,
    has_mcp: bool,
) -> (r: ControlPlan)
    ensures
        r.request_id@ == text_or_empty(field(frame, "request_id"@)),
        step_matches(frame, hook_events(hooks@), has_permission, has_mcp, r.step),
{
    let mut frame = frame;
    proof {
        reveal_strlit("request_id");
        reveal_strlit("request");
    }
    let request_id = frame.get_text("request_id");
    let step = match frame.take("request") {
        None => DispatchStep::Reply(error_reply(String::from_str("missing request"))),
        Some(q) => {
            let mut q = q;
            let subtype = q.get_text("subtype");
            if subtype == String::from_str("can_use_tool") {
                if has_permission {
                    let tool_name = q.get_text("tool_name");
                    proof {
                        reveal_strlit("tool_name");
                        reveal_strlit("input");
                    }
                    let input = q.take_or_null("input");
                    DispatchStep::AskPermission(CanUseToolInput { tool_name, input })
                } else {
                    DispatchStep::Reply(permission_reply(None))
                }
            } else if subtype == String::from_str("hook_callback") {
                let callback_id = q.get_text("callback_id");
                match parse_callback_index(callback_id.as_str()) {
                    Some(i) if i < hooks.len() => {
                        let event = hooks[i].event;
                        let input = q.take_or_null("input");
                        let input = hook_input_for(event, input);
                        DispatchStep::RunHook { index: i, event, input }
                    },
                    _ => DispatchStep::Reply(permissive_hook_reply()),
                }
            } else if subtype == String::from_str("mcp_message") {
                if has_mcp {
                    let server_name = q.get_text("server_name");
                    proof {
                        reveal_strlit("server_name");
                        reveal_strlit("message");
                    }
                    let message = q.take_or_null("message");
                    DispatchStep::ForwardMcp { server_name, message }
                } else {
                    DispatchStep::Reply(error_reply(String::from_str("no MCP handler registered")))
                }
            } else {
                DispatchStep::Reply(unknown_subtype_reply(subtype.as_str()))
            }
        },
    };
    ControlPlan { request_id, step }
}

/// The one frame that answers a control request: a success response under
/// the request's own id, carrying the body.
pub fn answer_control_request(plan_request_id: &str, body: Json) -> (r: Json)
    ensures
        is_control_response(r, plan_request_id@, body),
{
    control_response_frame(plan_request_id, body)
}

/// Whatever the handler did, the frame that answers a control request
/// carries that request's id.
pub proof fn law_answer_carries_request_id(frame: Json, plan: ControlPlan, body: Json, answer: Json)
    requires
        plan.request_id@ == text_or_empty(field(frame, "request_id"@)),
        is_control_response(answer, plan.request_id@, body),
    ensures
        field(answer, "response"@) matches Some(p) && has_text(
            p,
            "request_id"@,
            text_or_empty(field(frame, "request_id"@)),
        ),
{
}

/// A hook callback whose id is `hook_<i>`, for a registered index `i`,
/// runs the `i`-th registered hook, and no other.
pub proof fn law_hook_callback_selects_hook(
    frame: Json,
    events: Seq<HookEvent>,
    has_permission: bool,
    has_mcp: bool,
    step: DispatchStep,
    i: usize,
)
    requires
        i < events.len(),
        field(frame, "request"@) matches Some(q) && has_text(q, "subtype"@, "hook_callback"@)
            && has_text(q, "callback_id"@, "hook_"@ + decimal(i as nat)),
        step_matches(frame, events, has_permission, has_mcp, step),
    ensures
        step matches DispatchStep::RunHook { index, event, .. } && index == i && event == events[i as int],
{
    lemma_callback_index_of_decimal(i);
    reveal_strlit("hook_callback");
    reveal_strlit("can_use_tool");
    assert("hook_callback"@ != "can_use_tool"@) by {
        assert("hook_callback"@.len() != "can_use_tool"@.len());
    }
}

} // verus!
