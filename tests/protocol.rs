use agent_control::codec::{decode_line, encode_frame, LineOutcome};
use agent_control::control::{control_request_frame, user_message_frame, SDKControlCommand};
use agent_control::correlator::PendingTable;
use agent_control::dispatch::{answer_control_request, plan_control_request, unknown_subtype_reply, ControlPlan, DispatchStep};
use agent_control::engine::{Engine, EngineState, RouterAction};
use agent_control::error::Error;
use agent_control::hooks::{hook_reply, HookDecision, HookDefinition, HookEvent, HookInput, HookMatcher, HookOutput};
use agent_control::json::Json;
use agent_control::permissions::{permission_reply, PermissionResult};
use agent_control::request_id::{generate_request_id, request_id_for};

fn obj(members: Vec<(&str, Json)>) -> Json {
    Json::Object(members.into_iter().map(|(k, v)| (k.to_string(), v)).collect())
}

fn s(t: &str) -> Json {
    Json::Str(t.to_string())
}

fn to_value(j: &Json) -> serde_json::Value {
    serde_json::from_str(&encode_frame(j)).unwrap()
}

fn frame_of(line: &str) -> Json {
    match decode_line(line) {
        LineOutcome::Frame(j) => j,
        _ => panic!("expected a frame"),
    }
}

fn hook(event: HookEvent) -> HookDefinition<u32> {
    HookDefinition { event, matcher: HookMatcher { tool_name: None }, callback: 0 }
}

fn ready_engine() -> Engine<u32> {
    let mut e: Engine<u32> = Engine::new(false, false, false);
    e.begin_connect("req_init".to_string(), 0).unwrap();
    let resp = frame_of(r#"{"type":"control_response","response":{"subtype":"success","request_id":"req_init","response":{}}}"#);
    let hooks: Vec<HookDefinition<u32>> = vec![];
    match e.on_frame(resp, &hooks, false, false) {
        RouterAction::Deliver { slot, response } => {
            assert_eq!(slot, 0);
            e.finish_handshake(response).unwrap();
        }
        _ => panic!("expected the handshake answer to be delivered"),
    }
    e
}

#[test]
fn decode_encode_round_trip() {
    let line = r#"{"type":"assistant","message":{"content":[{"type":"text","text":"hi\nthere"}],"n":1.5},"ok":true,"none":null}"#;
    let frame = frame_of(line);
    let written = encode_frame(&frame);
    assert!(!written.contains('\n'));
    let first_read: serde_json::Value = serde_json::from_str(line).unwrap();
    let back: serde_json::Value = serde_json::from_str(&written).unwrap();
    assert_eq!(first_read, back);
    let again = frame_of(&written);
    assert_eq!(to_value(&again), first_read);
}

#[test]
fn malformed_line_is_skipped_and_next_line_is_read() {
    assert!(matches!(decode_line("this is not json"), LineOutcome::Malformed));
    assert!(matches!(decode_line("{\"type\": "), LineOutcome::Malformed));
    let next = frame_of(r#"{"type":"result","subtype":"success"}"#);
    assert_eq!(to_value(&next)["type"], "result");
}

#[test]
fn blank_line_is_blank() {
    assert!(matches!(decode_line(""), LineOutcome::Blank));
    assert!(matches!(decode_line("   \t "), LineOutcome::Blank));
}

#[test]
fn send_before_ready_fails_with_not_connected() {
    let e: Engine<u32> = Engine::new(false, false, false);
    assert_eq!(e.user_message("hello", None).unwrap_err(), Error::NotConnected);
    let mut e = e;
    let r = e.begin_command("req_1".to_string(), 1, SDKControlCommand::interrupt());
    assert_eq!(r.unwrap_err(), Error::NotConnected);
    assert_eq!(e.pending_count(), 0);
}

#[test]
fn user_message_frame_shape() {
    let e = ready_engine();
    let frame = e.user_message("What is 2+2?", Some("sess_1")).unwrap();
    let v = to_value(&frame);
    assert_eq!(v["type"], "user");
    assert_eq!(v["message"]["role"], "user");
    assert_eq!(v["message"]["content"], "What is 2+2?");
    assert_eq!(v["session_id"], "sess_1");
    assert!(v["parent_tool_use_id"].is_null());
    let v = to_value(&user_message_frame("x", None));
    assert!(v["session_id"].is_null());
}

#[test]
fn handshake_carries_capabilities_and_reaches_ready() {
    let mut e: Engine<u32> = Engine::new(true, false, true);
    let frame = e.begin_connect("req_init".to_string(), 7).unwrap();
    assert_eq!(e.state(), EngineState::Connecting);
    let v = to_value(&frame);
    assert_eq!(v["type"], "control_request");
    assert_eq!(v["request_id"], "req_init");
    assert_eq!(v["request"]["subtype"], "initialize");
    assert_eq!(v["request"]["protocol_version"], "1");
    assert_eq!(v["request"]["capabilities"]["hooks"], true);
    assert_eq!(v["request"]["capabilities"]["permissions"], false);
    assert_eq!(v["request"]["capabilities"]["mcp"], true);
    assert_eq!(e.begin_connect("req_again".to_string(), 8).unwrap_err(), Error::AlreadyConnected);
    e.finish_handshake(obj(vec![("ok", Json::Bool(true))])).unwrap();
    assert!(e.is_ready());
    assert_eq!(to_value(e.server_info().unwrap())["ok"], true);
    assert!(e.finish_handshake(Json::Null).is_err());
}

#[test]
fn process_gone_during_handshake_fails_connect() {
    let mut e: Engine<u32> = Engine::new(false, false, false);
    e.begin_connect("req_init".to_string(), 3).unwrap();
    let waiting = e.close();
    assert_eq!(waiting.len(), 1);
    assert_eq!(waiting[0].0, "req_init");
    assert_eq!(e.state(), EngineState::Closed);
    assert!(e.finish_handshake(Json::Null).is_err());
    assert!(!e.is_ready());
    assert_eq!(e.begin_connect("req_new".to_string(), 4).unwrap_err(), Error::AlreadyConnected);
}

#[test]
fn concurrent_commands_get_their_own_responses() {
    let mut e = ready_engine();
    let a = e.begin_command("req_a".to_string(), 10, SDKControlCommand::set_model("m1")).unwrap();
    let b = e.begin_command("req_b".to_string(), 20, SDKControlCommand::get_mcp_status()).unwrap();
    assert_eq!(to_value(&a)["request"]["model"], "m1");
    assert_eq!(to_value(&a)["request"]["subtype"], "set_model");
    assert_eq!(to_value(&b)["request"]["subtype"], "get_mcp_status");
    assert_eq!(e.pending_count(), 2);
    let hooks: Vec<HookDefinition<u32>> = vec![];
    let rb = frame_of(r#"{"type":"control_response","response":{"subtype":"success","request_id":"req_b","response":{"which":"b"}}}"#);
    let ra = frame_of(r#"{"type":"control_response","response":{"subtype":"success","request_id":"req_a","response":{"which":"a"}}}"#);
    match e.on_frame(rb, &hooks, false, false) {
        RouterAction::Deliver { slot, response } => {
            assert_eq!(slot, 20);
            assert_eq!(to_value(&response)["response"]["which"], "b");
        }
        _ => panic!("expected delivery"),
    }
    match e.on_frame(ra, &hooks, false, false) {
        RouterAction::Deliver { slot, response } => {
            assert_eq!(slot, 10);
            assert_eq!(to_value(&response)["request_id"], "req_a");
        }
        _ => panic!("expected delivery"),
    }
    assert_eq!(e.pending_count(), 0);
}

#[test]
fn duplicate_request_id_is_refused() {
    let mut e = ready_engine();
    e.begin_command("req_a".to_string(), 1, SDKControlCommand::interrupt()).unwrap();
    assert!(matches!(
        e.begin_command("req_a".to_string(), 2, SDKControlCommand::interrupt()),
        Err(Error::ControlProtocol(_))
    ));
    assert_eq!(e.pending_count(), 1);
}

#[test]
fn late_response_after_timeout_is_discarded() {
    let mut e = ready_engine();
    e.begin_command("req_slow".to_string(), 5, SDKControlCommand::interrupt()).unwrap();
    assert!(e.on_timeout("req_slow"));
    assert!(!e.on_timeout("req_slow"));
    let hooks: Vec<HookDefinition<u32>> = vec![];
    let late = frame_of(r#"{"type":"control_response","response":{"request_id":"req_slow"}}"#);
    match e.on_frame(late, &hooks, false, false) {
        RouterAction::Discard { request_id } => assert_eq!(request_id, "req_slow"),
        _ => panic!("expected the late answer to be dropped"),
    }
}

#[test]
fn close_fails_pending_commands() {
    let mut e = ready_engine();
    e.begin_command("req_wait".to_string(), 42, SDKControlCommand::rewind_files("u1")).unwrap();
    let waiting = e.close();
    assert_eq!(waiting.len(), 1);
    assert_eq!(waiting[0].0, "req_wait");
    assert_eq!(waiting[0].1, 42);
    assert_eq!(e.pending_count(), 0);
    assert!(e.close().is_empty());
    let hooks: Vec<HookDefinition<u32>> = vec![];
    assert!(matches!(e.on_frame(frame_of(r#"{"type":"assistant"}"#), &hooks, false, false), RouterAction::Ignore));
}

#[test]
fn content_frames_are_forwarded() {
    let mut e = ready_engine();
    let hooks: Vec<HookDefinition<u32>> = vec![];
    match e.on_frame(frame_of(r#"{"type":"assistant","n":1}"#), &hooks, false, false) {
        RouterAction::Forward(f) => assert_eq!(to_value(&f)["n"], 1),
        _ => panic!("expected forwarding"),
    }
}

#[test]
fn hook_callback_reaches_the_indexed_hook() {
    let hooks = vec![hook(HookEvent::Stop), hook(HookEvent::PreToolUse), hook(HookEvent::Notification)];
    let frame = frame_of(
        r#"{"type":"control_request","request_id":"cli_1","request":{"subtype":"hook_callback","callback_id":"hook_1","input":{"tool_name":"Bash","tool_input":{"command":"ls"}}}}"#,
    );
    let plan = plan_control_request(frame, &hooks, false, false);
    assert_eq!(plan.request_id, "cli_1");
    match plan.step {
        DispatchStep::RunHook { index, event, input } => {
            assert_eq!(index, 1);
            assert_eq!(event, HookEvent::PreToolUse);
            match input {
                HookInput::PreToolUse(p) => {
                    assert_eq!(p.tool_name, "Bash");
                    assert_eq!(to_value(&p.tool_input)["command"], "ls");
                }
                _ => panic!("expected a pre-tool-use payload"),
            }
        }
        _ => panic!("expected a hook run"),
    }
}

#[test]
fn unknown_hook_gets_permissive_reply() {
    let hooks = vec![hook(HookEvent::Stop)];
    for id in ["hook_5", "hook_x", "other", "hook_", "hook_99999999999999999999999"] {
        let line = format!(
            r#"{{"type":"control_request","request_id":"r","request":{{"subtype":"hook_callback","callback_id":"{id}"}}}}"#
        );
        match plan_control_request(frame_of(&line), &hooks, false, false).step {
            DispatchStep::Reply(b) => assert_eq!(to_value(&b), serde_json::from_str::<serde_json::Value>(r#"{"continue":true}"#).unwrap()),
            _ => panic!("expected a permissive reply"),
        }
    }
}

#[test]
fn hook_payload_fields_default_independently() {
    let hooks = vec![hook(HookEvent::Notification)];
    let frame = frame_of(
        r#"{"type":"control_request","request_id":"r","request":{"subtype":"hook_callback","callback_id":"hook_+0","input":{"title":7,"message":"m"}}}"#,
    );
    match plan_control_request(frame, &hooks, false, false).step {
        DispatchStep::RunHook { input: HookInput::Notification(n), .. } => {
            assert_eq!(n.title, "");
            assert_eq!(n.message, Some("m".to_string()));
        }
        _ => panic!("expected a notification payload"),
    }
}

#[test]
fn every_control_request_is_answered_under_its_id() {
    let hooks: Vec<HookDefinition<u32>> = vec![];
    let frame = frame_of(r#"{"type":"control_request","request_id":"cli_9","request":{"subtype":"make_coffee"}}"#);
    let ControlPlan { request_id, step } = plan_control_request(frame, &hooks, true, true);
    let body = match step {
        DispatchStep::Reply(b) => b,
        _ => panic!("expected an immediate reply"),
    };
    let answer = to_value(&answer_control_request(&request_id, body));
    assert_eq!(answer["type"], "control_response");
    assert_eq!(answer["response"]["subtype"], "success");
    assert_eq!(answer["response"]["request_id"], "cli_9");
    assert_eq!(answer["response"]["response"]["error"], "unknown subtype: make_coffee");
    assert_eq!(answer["response"]["response"]["code"], -32601);
    let missing = frame_of(r#"{"type":"control_request","request_id":"cli_10"}"#);
    let plan = plan_control_request(missing, &hooks, true, true);
    assert_eq!(plan.request_id, "cli_10");
    assert!(matches!(plan.step, DispatchStep::Reply(_)));
}

#[test]
fn permission_requests_and_replies() {
    let hooks: Vec<HookDefinition<u32>> = vec![];
    let line = r#"{"type":"control_request","request_id":"p1","request":{"subtype":"can_use_tool","tool_name":"Bash","input":{"command":"rm"}}}"#;
    match plan_control_request(frame_of(line), &hooks, true, false).step {
        DispatchStep::AskPermission(q) => {
            assert_eq!(q.tool_name, "Bash");
            assert_eq!(to_value(&q.input)["command"], "rm");
        }
        _ => panic!("expected a permission check"),
    }
    match plan_control_request(frame_of(line), &hooks, false, false).step {
        DispatchStep::Reply(b) => assert_eq!(to_value(&b)["behavior"], "allow"),
        _ => panic!("expected allow"),
    }
    let deny = to_value(&permission_reply(Some(&PermissionResult::deny("no"))));
    assert_eq!(deny["behavior"], "deny");
    assert_eq!(deny["message"], "no");
    let allow = to_value(&permission_reply(Some(&PermissionResult::allow())));
    assert_eq!(allow, serde_json::from_str::<serde_json::Value>(r#"{"behavior":"allow"}"#).unwrap());
}

#[test]
fn mcp_messages_are_forwarded_or_refused() {
    let hooks: Vec<HookDefinition<u32>> = vec![];
    let line = r#"{"type":"control_request","request_id":"m1","request":{"subtype":"mcp_message","server_name":"calc","message":{"id":1}}}"#;
    match plan_control_request(frame_of(line), &hooks, false, true).step {
        DispatchStep::ForwardMcp { server_name, message } => {
            assert_eq!(server_name, "calc");
            assert_eq!(to_value(&message)["id"], 1);
        }
        _ => panic!("expected forwarding"),
    }
    match plan_control_request(frame_of(line), &hooks, false, false).step {
        DispatchStep::Reply(b) => assert_eq!(to_value(&b)["error"], "no MCP handler registered"),
        _ => panic!("expected an error body"),
    }
}

#[test]
fn hook_replies() {
    let v = to_value(&hook_reply(HookEvent::PreToolUse, &HookOutput::block("dangerous")));
    assert_eq!(v["continue"], false);
    assert_eq!(v["hookSpecificOutput"]["hookEventName"], "PreToolUse");
    assert_eq!(v["hookSpecificOutput"]["permissionDecision"], "deny");
    assert_eq!(v["hookSpecificOutput"]["permissionDecisionReason"], "dangerous");
    let v = to_value(&hook_reply(HookEvent::Stop, &HookOutput::approve()));
    assert_eq!(v["continue"], true);
    assert_eq!(v["hookSpecificOutput"]["permissionDecision"], "approve");
    assert_eq!(v["hookSpecificOutput"]["permissionDecisionReason"], "");
    let v = to_value(&hook_reply(HookEvent::Stop, &HookOutput { decision: None, reason: None }));
    assert_eq!(v, serde_json::from_str::<serde_json::Value>(r#"{"continue":true}"#).unwrap());
    assert_eq!(HookDecision::Ignore.as_str(), "ignore");
    assert_eq!(HookEvent::SubagentStop.as_str(), "SubagentStop");
}

#[test]
fn control_request_merges_params() {
    let params = obj(vec![("mode", s("plan")), ("subtype", s("ignored"))]);
    let v = to_value(&control_request_frame("req_1", "set_permission_mode", params));
    assert_eq!(v["request"]["subtype"], "set_permission_mode");
    assert_eq!(v["request"]["mode"], "plan");
    assert_eq!(v["request_id"], "req_1");
}

#[test]
fn request_ids_are_sixteen_hex_digits() {
    assert_eq!(request_id_for(0), "req_0000000000000000");
    assert_eq!(request_id_for(u64::MAX), "req_ffffffffffffffff");
    assert_eq!(request_id_for(0x1234_abcd), "req_000000001234abcd");
    let a = generate_request_id();
    assert_eq!(a.len(), 20);
    assert!(a.starts_with("req_"));
    assert!(a[4..].chars().all(|c| c.is_ascii_hexdigit() && !c.is_ascii_uppercase()));
}

#[test]
fn pending_table_register_and_resolve() {
    let mut t: PendingTable<u8> = PendingTable::new();
    assert!(t.register("a".to_string(), 1));
    assert!(!t.register("a".to_string(), 2));
    assert!(t.register("b".to_string(), 3));
    assert!(t.contains("b"));
    assert_eq!(t.resolve("a"), Some(1));
    assert_eq!(t.resolve("a"), None);
    assert_eq!(t.len(), 1);
    let rest = t.drain();
    assert_eq!(rest, vec![("b".to_string(), 3)]);
    assert_eq!(t.len(), 0);
}

#[test]
fn unknown_subtype_reply_has_code() {
    let v = to_value(&unknown_subtype_reply("x"));
    assert_eq!(v["code"], -32601);
    assert_eq!(v["error"], "unknown subtype: x");
}

#[test]
fn deep_copy_keeps_numbers() {
    let j = frame_of(r#"{"a":[1,2.5,{"b":-3}],"c":"d"}"#);
    assert_eq!(to_value(&j.deep_copy()), to_value(&j));
}

#[test]
fn failed_write_withdraws_the_request() {
    let mut e = ready_engine();
    e.begin_command("req_lost".to_string(), 9, SDKControlCommand::interrupt()).unwrap();
    assert_eq!(e.pending_count(), 1);
    assert!(e.on_send_failed("req_lost"));
    assert_eq!(e.pending_count(), 0);
    assert!(!e.on_send_failed("req_lost"));
}

#[test]
fn failed_handshake_leaves_no_server_info() {
    let mut e: Engine<u32> = Engine::new(false, false, false);
    e.begin_connect("req_init".to_string(), 1).unwrap();
    assert!(e.on_timeout("req_init"));
    assert!(e.server_info().is_none());
    e.close();
    assert!(e.server_info().is_none());
    assert_eq!(e.user_message("x", None).unwrap_err(), Error::NotConnected);
}

#[test]
fn floats_round_trip_exactly() {
    let line = r#"{"x":51.248178375505404,"y":[1e300,-0.0,0.1]}"#;
    let frame = frame_of(line);
    let written = encode_frame(&frame);
    let a: serde_json::Value = serde_json::from_str(line).unwrap();
    let b: serde_json::Value = serde_json::from_str(&written).unwrap();
    assert_eq!(a, b);
    assert_eq!(b["x"].as_f64().unwrap(), 51.248178375505404_f64);
}

#[test]
fn repeated_key_decodes_to_well_formed_frame() {
    let frame = frame_of(r#"{"a":1,"a":2}"#);
    assert!(frame.is_well_formed());
    assert_eq!(to_value(&frame)["a"], 2);
}
