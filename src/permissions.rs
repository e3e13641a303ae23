use vstd::prelude::*;

use crate::json::{has_text, keys, Json};

verus! {

/// Permission mode for tool usage.
#[derive(Debug, Clone, Copy, PartialEq, Eq, Structural)]
pub enum PermissionMode {
    /// Prompt the user for dangerous tools.
    Default,
    /// Accept all tool uses without prompting.
    AcceptAll,
    /// Deny all tool uses.
    DenyAll,
    /// Use the allowed-tools list.
    AllowedTools,
}

impl Default for PermissionMode {
    fn default() -> (r: Self)
        ensures
            r == PermissionMode::Default,
    {
        PermissionMode::Default
    }
}

/// Result from a permission check.
#[derive(Debug, Clone)]
pub struct PermissionResult {
    /// Whether the tool use is allowed.
    pub allowed: bool,
    /// Optional reason for a denial.
    pub reason: Option<String>,
}

impl PermissionResult {
    pub fn allow() -> (r: Self)
        ensures
            r.allowed,
            r.reason is None,
    {
        PermissionResult { allowed: true, reason: None }
    }

    pub fn deny(reason: &str) -> (r: Self)
        ensures
            !r.allowed,
            r.reason matches Some(t) && t@ == reason@,
    {
        PermissionResult { allowed: false, reason: Some(String::from_str(reason)) }
    }
}

/// What the permission check is asked about.
#[derive(Debug)]
pub struct CanUseToolInput {
    pub tool_name: String,
    pub input: Json,
}

/// The reply that lets a tool run.
pub open spec fn is_allow_reply(r: Json) -> bool {
    &&& keys(r) == seq!["behavior"@]
    &&& has_text(r, "behavior"@, "allow"@)
}

/// The reply that refuses a tool, with the given message.
pub open spec fn is_deny_reply(r: Json, message: Seq<char>) -> bool {
    &&& keys(r) == seq!["behavior"@, "message"@]
    &&& has_text(r, "behavior"@, "deny"@)
    &&& has_text(r, "message"@, message)
}

/// The reply to a permission check: allow, or deny with the reason (empty
/// where none was given). Where no permission check is installed the answer
/// is `None`, and the tool is allowed.
pub fn permission_reply(result: Option<&PermissionResult>) -> (r: Json)
    ensures
        match result {
            Some(p) if !p.allowed => is_deny_reply(
                r,
                match p.reason {
                    Some(t) => t@,
                    None => Seq::empty(),
                },
            ),
            _ => is_allow_reply(r),
        },
{
    match result {
        Some(p) if !p.allowed => {
            let message = match &p.reason {
                Some(t) => t.clone(),
                None => String::new(),
            };
            proof {
                reveal_strlit("behavior");
                reveal_strlit("message");
                assert("behavior"@.len() != "message"@.len());
            }
            Json::object2("behavior", Json::text("deny"), "message", Json::Str(message))
        },
        _ => Json::object1("behavior", Json::text("allow")),
    }
}

} // verus!
