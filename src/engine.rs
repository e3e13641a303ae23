use vstd::prelude::*;

use crate::control::{
    command_frame, initialize_frame, is_control_request, is_user_message, user_message_frame,
    SDKCapabilities, SDKControlCommand,
};
use crate::correlator::{entries_map, ids_distinct, PendingTable};
use crate::dispatch::{hook_events, plan_control_request, step_matches, ControlPlan};
use crate::error::Error;
use crate::hooks::HookDefinition;
use crate::json::{field, has_text, text_or_empty, Json};

verus! {

/// Where a session stands.
#[derive(Debug, Clone, Copy, PartialEq, Eq, Structural)]
pub enum EngineState {
    Idle,
    Connecting,
    Ready,
    Closing,
    Closed,
}

/// What the router does with a frame read from the child process.
#[derive(Debug)]
pub enum RouterAction<T> {
    /// Hand the response to the request that awaits it, through its slot.
    Deliver { slot: T, response: Json },
    /// A response that no pending request awaits (unknown, answered, or
    /// timed out): drop it.
    Discard { request_id: String },
    /// A control request of the child process: carry out the plan and send
    /// the one answer.
    Dispatch(ControlPlan),
    /// Anything else: pass it on to the consumer, in order.
    Forward(Json),
    /// The session is over: nothing is done with frames.
    Ignore,
}

/// The `type` of a frame.
pub open spec fn frame_type(frame: Json) -> Seq<char> {
    text_or_empty(field(frame, "type"@))
}

/// The body of a control response: its `response` member, or the frame
/// itself where it has none.
pub open spec fn response_body(frame: Json) -> Json {
    match field(frame, "response"@) {
        Some(r) => r,
        None => frame,
    }
}

/// The request id that a control response answers.
pub open spec fn response_id(frame: Json) -> Seq<char> {
    text_or_empty(field(response_body(frame), "request_id"@))
}

/// How a control response meets the table of pending requests: delivered
/// through the slot of the request with its own id, which leaves the table,
/// or dropped when no such request is pending.
pub open spec fn routes_response<T>(
    before: Map<Seq<char>, T>,
    frame: Json,
    action: RouterAction<T>,
    after: Map<Seq<char>, T>,
) -> bool {
    &&& after == before.remove(response_id(frame))
    &&& match action {
        RouterAction::Deliver { slot, response } => {
            &&& before.contains_key(response_id(frame))
            &&& slot == before[response_id(frame)]
            &&& response == response_body(frame)
        },
        RouterAction::Discard { request_id } => {
            &&& request_id@ == response_id(frame)
            &&& !before.contains_key(response_id(frame))
        },
        _ => false,
    }
}

/// A control response reaches the pending request that carries its own id,
/// through that request's slot, and no other; only that request leaves the
/// table, and every other request keeps its slot.
pub proof fn law_response_reaches_its_own_request<T>(
    before: Map<Seq<char>, T>,
    frame: Json,
    action: RouterAction<T>,
    after: Map<Seq<char>, T>,
)
    requires
        routes_response(before, frame, action, after),
    ensures
        action matches RouterAction::Deliver { slot, .. } ==> slot == before[response_id(frame)],
        !after.contains_key(response_id(frame)),
        forall|k: Seq<char>|
            k != response_id(frame) ==> (after.contains_key(k) == before.contains_key(k)) && (
            after.contains_key(k) ==> after[k] == before[k]),
{
}

/// Once a request has timed out and left the table, a response that comes
/// late for it is dropped and changes nothing.
pub proof fn law_late_response_is_dropped<T>(
    pending: Map<Seq<char>, T>,
    id: Seq<char>,
    frame: Json,
    action: RouterAction<T>,
    after: Map<Seq<char>, T>,
)
    requires
        response_id(frame) == id,
        routes_response(pending.remove(id), frame, action, after),
    ensures
        action is Discard,
        after == pending.remove(id),
{
    assert(pending.remove(id).remove(id) =~= pending.remove(id));
}

/// The protocol engine of one session: its state, the requests that await
/// an answer, the capabilities it announced, and what the handshake returned.
pub struct Engine<T> {
    state: EngineState,
    pending: PendingTable<T>,
    hooks_enabled: bool,
    permissions_enabled: bool,
    mcp_enabled: bool,
    server_info: Option<Json>,
}

impl<T> Engine<T> {
    pub closed spec fn spec_state(&self) -> EngineState {
        self.state
    }

    /// The slot of each request that awaits an answer.
    pub closed spec fn pending(&self) -> Map<Seq<char>, T> {
        self.pending@
    }

    /// The capabilities supplied: hooks, a permission check, tool servers.
    pub closed spec fn capabilities(&self) -> (bool, bool, bool) {
        (self.hooks_enabled, self.permissions_enabled, self.mcp_enabled)
    }

    pub closed spec fn spec_server_info(&self) -> Option<Json> {
        self.server_info
    }

    pub closed spec fn wf(&self) -> bool {
        &&& self.pending.wf()
        &&& self.state == EngineState::Idle ==> self.pending@ == Map::<Seq<char>, T>::empty()
    }

    /// A fresh engine that has not connected. The flags say which
    /// capabilities were supplied: hooks, a permission check, tool servers.
    pub fn new(hooks: bool, permissions: bool, mcp: bool) -> (r: Self)
        ensures
            r.wf(),
            r.spec_state() == EngineState::Idle,
            r.capabilities() == (hooks, permissions, mcp),
            r.pending() == Map::<Seq<char>, T>::empty(),
            r.spec_server_info() is None,
    {
        Engine {
            state: EngineState::Idle,
            pending: PendingTable::new(),
            hooks_enabled: hooks,
            permissions_enabled: permissions,
            mcp_enabled: mcp,
            server_info: None,
        }
    }

    pub fn state(&self) -> (r: EngineState)
        ensures
            r == self.spec_state(),
    {
        self.state
    }

    /// Whether the engine is ready for prompts and commands.
    pub fn is_ready(&self) -> (r: bool)
        ensures
            r == (self.spec_state() == EngineState::Ready),
    {
        match self.state {
            EngineState::Ready => true,
            _ => false,
        }
    }

    /// What the handshake returned, once the engine is ready.
    pub fn server_info(&self) -> (r: Option<&Json>)
        ensures
            match r {
                Some(j) => self.spec_server_info() == Some(*j),
                None => self.spec_server_info() is None,
            },
    {
        match &self.server_info {
            Some(j) => Some(j),
            None => None,
        }
    }

    /// The number of requests that await an answer.
    pub fn pending_count(&self) -> (r: usize)
        requires
            self.wf(),
        ensures
            r == self.pending().len(),
    {
        self.pending.len()
    }

    /// Starts the connection: the engine leaves `Idle`, records the
    /// handshake request under `request_id`, and returns the frame to send.
    /// An engine connects once: in any other state the call fails with
    /// `AlreadyConnected` and nothing changes.
    pub fn begin_connect(&mut self, request_id: String, slot: T) -> (r: Result<Json, Error>)
        requires
            old(self).wf(),
        ensures
            final(self).wf(),
            final(self).capabilities() == old(self).capabilities(),
            old(self).spec_state() != EngineState::Idle ==> {
                &&& r == Err::<Json, Error>(Error::AlreadyConnected)
                &&& *final(self) == *old(self)
            },
            final(self).spec_server_info() == old(self).spec_server_info(),
            old(self).spec_state() == EngineState::Idle ==> {
                &&& final(self).spec_state() == EngineState::Connecting
                &&& final(self).pending() == old(self).pending().insert(request_id@, slot)
                &&& (r matches Ok(frame) && has_text(frame, "request_id"@, request_id@) && (field(
                    frame,
                    "request"@,
                ) matches Some(q) && has_text(q, "subtype"@, "initialize"@) && has_text(
                    q,
                    "protocol_version"@,
                    "1"@,
                ) && (field(
                    q,
                    "capabilities"@,
                ) matches Some(c) && field(c, "hooks"@) == Some(Json::Bool(old(self).capabilities().0))
                    && field(c, "permissions"@) == Some(Json::Bool(old(self).capabilities().1))
                    && field(c, "mcp"@) == Some(Json::Bool(old(self).capabilities().2)))))
            },
    {
        match self.state {
            EngineState::Idle => {},
            _ => {
                return Err(Error::AlreadyConnected);
            },
        }
        let caps = SDKCapabilities {
            hooks: self.hooks_enabled,
            permissions: self.permissions_enabled,
            mcp: self.mcp_enabled,
            agent_definitions: Vec::new(),
            mcp_servers: Vec::new(),
        };
        let frame = initialize_frame(request_id.as_str(), caps);
        let _ = self.pending.register(request_id, slot);
        self.state = EngineState::Connecting;
        Ok(frame)
    }

    /// The handshake was answered: the engine is ready and keeps the answer.
    /// Outside `Connecting` the answer is not expected and the call fails.
    pub fn finish_handshake(&mut self, response: Json) -> (r: Result<(), Error>)
        requires
            old(self).wf(),
        ensures
            final(self).wf(),
            final(self).capabilities() == old(self).capabilities(),
            final(self).pending() == old(self).pending(),
            old(self).spec_state() == EngineState::Connecting ==> {
                &&& r is Ok
                &&& final(self).spec_state() == EngineState::Ready
                &&& final(self).spec_server_info() == Some(response)
            },
            old(self).spec_state() != EngineState::Connecting ==> {
                &&& r is Err
                &&& *final(self) == *old(self)
            },
    {
        match self.state {
            EngineState::Connecting => {
                self.state = EngineState::Ready;
                self.server_info = Some(response);
                Ok(())
            },
            _ => Err(Error::ControlProtocol(String::from_str("unexpected handshake response"))),
        }
    }

    /// Builds the frame that sends a prompt. Only a ready engine sends; in
    /// any other state the call fails with `NotConnected` and no frame is made.
    pub fn user_message(&self, prompt: &str, session_id: Option<&str>) -> (r: Result<Json, Error>)
        ensures
            self.spec_state() != EngineState::Ready ==> r == Err::<Json, Error>(Error::NotConnected),
            self.spec_state() == EngineState::Ready ==> (r matches Ok(frame) && is_user_message(
                frame,
                prompt@,
                match session_id {
                    Some(s) => Some(s@),
                    None => None,
                },
            )),
    {
        match self.state {
            EngineState::Ready => Ok(user_message_frame(prompt, session_id)),
            _ => Err(Error::NotConnected),
        }
    }

    /// Records a control command under `request_id` and returns the frame
    /// to send. Fails with `NotConnected` unless the engine is ready, and
    /// with a protocol error where that id already awaits an answer; either
    /// way nothing changes.
    pub fn begin_command(&mut self, request_id: String, slot: T, command: SDKControlCommand) -> (r: Result<
        Json,
        Error,
    >)
        requires
            old(self).wf(),
        ensures
            final(self).wf(),
            final(self).capabilities() == old(self).capabilities(),
            final(self).spec_state() == old(self).spec_state(),
            final(self).spec_server_info() == old(self).spec_server_info(),
            old(self).spec_state() != EngineState::Ready ==> {
                &&& r == Err::<Json, Error>(Error::NotConnected)
                &&& final(self).pending() == old(self).pending()
            },
            old(self).spec_state() == EngineState::Ready && old(self).pending().contains_key(
                request_id@,
            ) ==> {
                &&& r is Err
                &&& final(self).pending() == old(self).pending()
            },
            old(self).spec_state() == EngineState::Ready && !old(self).pending().contains_key(
                request_id@,
            ) ==> {
                &&& final(self).pending() == old(self).pending().insert(request_id@, slot)
                &&& r matches Ok(frame) && is_control_request(
                    frame,
                    request_id@,
                    command.command_type@,
                    command.params,
                )
            },
    {
        match self.state {
            EngineState::Ready => {},
            _ => {
                return Err(Error::NotConnected);
            },
        }
        let frame = command_frame(request_id.as_str(), command);
        if self.pending.register(request_id, slot) {
            Ok(frame)
        } else {
            Err(Error::ControlProtocol(String::from_str("request id already pending")))
        }
    }

    /// The deadline of the request `id` passed. Where it still awaits an
    /// answer it leaves the table and the result is `true`: the caller gets
    /// a timeout, and a late answer will find no entry. Where it was already
    /// answered the result is `false`.
    pub fn on_timeout(&mut self, id: &str) -> (r: bool)
        requires
            old(self).wf(),
        ensures
            final(self).wf(),
            final(self).capabilities() == old(self).capabilities(),
            final(self).spec_state() == old(self).spec_state(),
            final(self).spec_server_info() == old(self).spec_server_info(),
            r == old(self).pending().contains_key(id@),
            final(self).pending() == old(self).pending().remove(id@),
    {
        let found = self.pending.resolve(id).is_some();
        assert(Map::<Seq<char>, T>::empty().remove(id@) =~= Map::<Seq<char>, T>::empty());
        found
    }

    /// The frame of the request `id` could not be written: the request
    /// leaves the table, so that no entry stays behind for an answer that
    /// cannot come. The result says whether it was pending.
    pub fn on_send_failed(&mut self, id: &str) -> (r: bool)
        requires
            old(self).wf(),
        ensures
            final(self).wf(),
            final(self).capabilities() == old(self).capabilities(),
            final(self).spec_state() == old(self).spec_state(),
            final(self).spec_server_info() == old(self).spec_server_info(),
            r == old(self).pending().contains_key(id@),
            final(self).pending() == old(self).pending().remove(id@),
    {
        self.on_timeout(id)
    }

    /// Routes one frame read from the child process by its `type`.
    pub fn on_frame<C>(
        &mut self,
        frame: Json,
        hooks: &Vec<HookDefinition<C>>,
        has_permission: bool,
        has_mcp: bool,
    ) -> (r: RouterAction<T>)
        requires
            old(self).wf(),
        ensures
            final(self).wf(),
            final(self).capabilities() == old(self).capabilities(),
            final(self).spec_state() == old(self).spec_state(),
            final(self).spec_server_info() == old(self).spec_server_info(),
            old(self).spec_state() == EngineState::Closed ==> (r is Ignore && final(self).pending()
                == old(self).pending()),
            old(self).spec_state() != EngineState::Closed ==> {
                if frame_type(frame) == "control_response"@ {
                    routes_response(old(self).pending(), frame, r, final(self).pending())
                } else if frame_type(frame) == "control_request"@ {
                    &&& final(self).pending() == old(self).pending()
                    &&& r matches RouterAction::Dispatch(plan) && plan.request_id@ == text_or_empty(
                        field(frame, "request_id"@),
                    ) && step_matches(frame, hook_events(hooks@), has_permission, has_mcp, plan.step)
                } else {
                    &&& final(self).pending() == old(self).pending()
                    &&& r == RouterAction::<T>::Forward(frame)
                }
            },
    {
        match self.state {
            EngineState::Closed => {
                return RouterAction::Ignore;
            },
            _ => {},
        }
        let kind = frame.get_text("type");
        if kind == String::from_str("control_response") {
            let mut frame = frame;
            proof {
                reveal_strlit("response");
            }
            let body = match frame.take("response") {
                Some(b) => b,
                None => frame,
            };
            let id = body.get_text("request_id");
            assert(Map::<Seq<char>, T>::empty().remove(id@) =~= Map::<Seq<char>, T>::empty());
            match self.pending.resolve(id.as_str()) {
                Some(slot) => RouterAction::Deliver { slot, response: body },
                None => RouterAction::Discard { request_id: id },
            }
        } else if kind == String::from_str("control_request") {
            RouterAction::Dispatch(plan_control_request(frame, hooks, has_permission, has_mcp))
        } else {
            RouterAction::Forward(frame)
        }
    }

    /// Ends the session: the engine is closed for good, and every request
    /// that still awaits an answer is handed back so that its waiter fails at
    /// once. Closing again hands back nothing.
    pub fn close(&mut self) -> (r: Vec<(String, T)>)
        requires
            old(self).wf(),
        ensures
            final(self).wf(),
            final(self).capabilities() == old(self).capabilities(),
            final(self).spec_state() == EngineState::Closed,
            final(self).pending() == Map::<Seq<char>, T>::empty(),
            entries_map(r@) == old(self).pending(),
            ids_distinct(r@),
            final(self).spec_server_info() == old(self).spec_server_info(),
    {
        self.state = EngineState::Closing;
        let waiting = self.pending.drain();
        self.state = EngineState::Closed;
        waiting
    }
}

} // verus!
