use vstd::prelude::*;

use crate::json::{field, has_text, keys, opt_text, or_null, text_option, text_or_empty, Json};

verus! {

/// Hook events that can be intercepted.
#[derive(Debug, Clone, Copy, PartialEq, Eq, Structural)]
#[non_exhaustive]
pub enum HookEvent {
    PreToolUse,
    PostToolUse,
    Notification,
    Stop,
    SubagentStop,
}

/// The wire name of a hook event.
pub open spec fn event_name(e: HookEvent) -> Seq<char> {
    match e {
        HookEvent::PreToolUse => "PreToolUse"@,
        HookEvent::PostToolUse => "PostToolUse"@,
        HookEvent::Notification => "Notification"@,
        HookEvent::Stop => "Stop"@,
        HookEvent::SubagentStop => "SubagentStop"@,
    }
}

impl HookEvent {
    pub fn as_str(&self) -> (r: &'static str)
        ensures
            r@ == event_name(*self),
    {
        match self {
            HookEvent::PreToolUse => "PreToolUse",
            HookEvent::PostToolUse => "PostToolUse",
            HookEvent::Notification => "Notification",
            HookEvent::Stop => "Stop",
            HookEvent::SubagentStop => "SubagentStop",
        }
    }
}

/// Matcher for which tool a hook applies to.
#[derive(Debug, Clone)]
pub struct HookMatcher {
    pub tool_name: Option<String>,
}

/// Input for a pre-tool-use hook.
#[derive(Debug)]
pub struct PreToolUseInput {
    pub tool_name: String,
    pub tool_input: Json,
}

/// Input for a post-tool-use hook.
#[derive(Debug)]
pub struct PostToolUseInput {
    pub tool_name: String,
    pub tool_input: Json,
    pub tool_output: Json,
}

/// Input for a notification hook.
#[derive(Debug, Clone)]
pub struct NotificationInput {
    pub title: String,
    pub message: Option<String>,
}

/// Input for a stop hook.
#[derive(Debug, Clone)]
pub struct StopInput {
    pub reason: Option<String>,
}

/// Hook input passed to callbacks, one shape per kind of event.
#[derive(Debug)]
#[non_exhaustive]
pub enum HookInput {
    PreToolUse(PreToolUseInput),
    PostToolUse(PostToolUseInput),
    Notification(NotificationInput),
    Stop(StopInput),
}

/// What a hook decided.
#[derive(Debug, Clone, Copy, PartialEq, Eq, Structural)]
#[non_exhaustive]
pub enum HookDecision {
    Approve,
    Block,
    Ignore,
}

/// The wire name of a decision; a block is sent as a denial.
pub open spec fn decision_name(d: HookDecision) -> Seq<char> {
    match d {
        HookDecision::Approve => "approve"@,
        HookDecision::Block => "deny"@,
        HookDecision::Ignore => "ignore"@,
    }
}

impl HookDecision {
    pub fn as_str(&self) -> (r: &'static str)
        ensures
            r@ == decision_name(*self),
    {
        match self {
            HookDecision::Approve => "approve",
            HookDecision::Block => "deny",
            HookDecision::Ignore => "ignore",
        }
    }
}

/// Output from a hook callback.
#[derive(Debug, Clone)]
pub struct HookOutput {
    /// If set, what the hook decided.
    pub decision: Option<HookDecision>,
    /// Optional reason or message.
    pub reason: Option<String>,
}

impl HookOutput {
    pub fn approve() -> (r: Self)
        ensures
            r.decision == Some(HookDecision::Approve),
            r.reason is None,
    {
        HookOutput { decision: Some(HookDecision::Approve), reason: None }
    }

    pub fn block(reason: &str) -> (r: Self)
        ensures
            r.decision == Some(HookDecision::Block),
            r.reason matches Some(t) && t@ == reason@,
    {
        HookOutput { decision: Some(HookDecision::Block), reason: Some(String::from_str(reason)) }
    }

    pub fn ignore() -> (r: Self)
        ensures
            r.decision == Some(HookDecision::Ignore),
            r.reason is None,
    {
        HookOutput { decision: Some(HookDecision::Ignore), reason: None }
    }
}

/// A registered hook: its event, its matcher, and the callback that the
/// caller supplies.
#[derive(Debug, Clone)]
pub struct HookDefinition<C> {
    pub event: HookEvent,
    pub matcher: HookMatcher,
    pub callback: C,
}

/// The typed payload for a hook of kind `event` read from the wire input:
/// each member is read on its own, and one that is missing or of another
/// shape takes its empty value.
pub open spec fn payload_matches(event: HookEvent, input: Json, r: HookInput) -> bool {
    match event {
        HookEvent::PreToolUse => r matches HookInput::PreToolUse(p) && p.tool_name@ == text_or_empty(
            field(input, "tool_name"@),
        ) && p.tool_input == or_null(field(input, "tool_input"@)),
        HookEvent::PostToolUse => r matches HookInput::PostToolUse(p) && p.tool_name@
            == text_or_empty(field(input, "tool_name"@)) && p.tool_input == or_null(
            field(input, "tool_input"@),
        ) && p.tool_output == or_null(field(input, "tool_output"@)),
        HookEvent::Notification => r matches HookInput::Notification(n) && n.title@ == text_or_empty(
            field(input, "title"@),
        ) && opt_text(n.message) == text_option(field(input, "message"@)),
        HookEvent::Stop | HookEvent::SubagentStop => r matches HookInput::Stop(st) && opt_text(
            st.reason,
        ) == text_option(field(input, "reason"@)),
    }
}

/// Reads the payload of a hook callback according to the hook's event.
pub fn hook_input_for(event: HookEvent, input: Json) -> (r: HookInput)
    ensures
        payload_matches(event, input, r),
{
    let mut input = input;
    let ghost wire = input;
    proof {
        reveal_strlit("tool_name");
        reveal_strlit("tool_input");
        reveal_strlit("tool_output");
    }
    match event {
        HookEvent::PreToolUse => {
            let tool_name = input.get_text("tool_name");
            let tool_input = input.take_or_null("tool_input");
            HookInput::PreToolUse(PreToolUseInput { tool_name, tool_input })
        },
        HookEvent::PostToolUse => {
            let tool_name = input.get_text("tool_name");
            let tool_input = input.take_or_null("tool_input");
            assert("tool_output"@ != "tool_input"@) by {
                assert("tool_output"@.len() != "tool_input"@.len());
            }
            assert(field(input, "tool_output"@) == field(wire, "tool_output"@));
            let tool_output = input.take_or_null("tool_output");
            HookInput::PostToolUse(PostToolUseInput { tool_name, tool_input, tool_output })
        },
        HookEvent::Notification => {
            let title = input.get_text("title");
            let message = input.get_text_option("message");
            HookInput::Notification(NotificationInput { title, message })
        },
        HookEvent::Stop | HookEvent::SubagentStop => {
            let reason = input.get_text_option("reason");
            HookInput::Stop(StopInput { reason })
        },
    }
}

/// The text of an optional reason, empty where there is none.
pub open spec fn reason_text(o: Option<String>) -> Seq<char> {
    match o {
        Some(s) => s@,
        None => Seq::empty(),
    }
}

/// The reply to a hook callback: `continue` is false exactly when the hook
/// blocked, and a decision, where there is one, is reported with the event,
/// its wire name and the reason.
pub open spec fn hook_reply_matches(event: HookEvent, output: HookOutput, r: Json) -> bool {
    &&& field(r, "continue"@) == Some(Json::Bool(output.decision != Some(HookDecision::Block)))
    &&& match output.decision {
        None => keys(r) == seq!["continue"@],
        Some(d) => {
            &&& keys(r) == seq!["continue"@, "hookSpecificOutput"@]
            &&& field(r, "hookSpecificOutput"@) matches Some(h) && {
                &&& keys(h) == seq![
                    "hookEventName"@,
                    "permissionDecision"@,
                    "permissionDecisionReason"@,
                ]
                &&& has_text(h, "hookEventName"@, event_name(event))
                &&& has_text(h, "permissionDecision"@, decision_name(d))
                &&& has_text(h, "permissionDecisionReason"@, reason_text(output.reason))
            }
        },
    }
}

/// Builds the reply to a hook callback from what the hook returned.
pub fn hook_reply(event: HookEvent, output: &HookOutput) -> (r: Json)
    ensures
        hook_reply_matches(event, *output, r),
{
    proof {
        reveal_strlit("continue");
        reveal_strlit("hookSpecificOutput");
        reveal_strlit("hookEventName");
        reveal_strlit("permissionDecision");
        reveal_strlit("permissionDecisionReason");
    }
    match output.decision {
        None => Json::object1("continue", Json::Bool(true)),
        Some(d) => {
            let reason = match &output.reason {
                Some(t) => t.clone(),
                None => String::new(),
            };
            assert("hookEventName"@.len() != "permissionDecision"@.len());
            assert("hookEventName"@.len() != "permissionDecisionReason"@.len());
            assert("permissionDecision"@.len() != "permissionDecisionReason"@.len());
            let specific = Json::object3(
                "hookEventName",
                Json::text(event.as_str()),
                "permissionDecision",
                Json::text(d.as_str()),
                "permissionDecisionReason",
                Json::Str(reason),
            );
            let go_on = match d {
                HookDecision::Block => false,
                _ => true,
            };
            assert("continue"@.len() != "hookSpecificOutput"@.len());
            Json::object2("continue", Json::Bool(go_on), "hookSpecificOutput", specific)
        },
    }
}

/// The reply when no registered hook answers to a callback id: carry on.
pub fn permissive_hook_reply() -> (r: Json)
    ensures
        field(r, "continue"@) == Some(Json::Bool(true)),
        keys(r) == seq!["continue"@],
{
    Json::object1("continue", Json::Bool(true))
}

/// `d` is a non-empty run of ASCII digits.
pub open spec fn is_digits(d: Seq<char>) -> bool {
    d.len() > 0 && forall|i: int| 0 <= i < d.len() ==> '0' <= #[trigger] d[i] <= '9'
}

/// The number that a run of ASCII digits writes in decimal.
pub open spec fn digits_value(d: Seq<char>) -> nat
    decreases d.len(),
{
    if d.len() == 0 {
        0
    } else {
        digits_value(d.drop_last()) * 10 + (d.last() as nat - '0' as nat) as nat
    }
}

/// The text after `hook_`: an optional `+`, then digits.
pub open spec fn index_digits(rest: Seq<char>) -> Seq<char> {
    if rest.len() > 0 && rest[0] == '+' {
        rest.drop_first()
    } else {
        rest
    }
}

/// The hook index that a callback id names: `hook_` followed by an unsigned
/// decimal number (optionally signed `+`) that fits in `usize`.
pub open spec fn callback_index(id: Seq<char>) -> Option<nat> {
    let prefix = "hook_"@;
    if id.len() >= prefix.len() && id.subrange(0, prefix.len() as int) == prefix {
        let d = index_digits(id.subrange(prefix.len() as int, id.len() as int));
        if is_digits(d) && digits_value(d) <= usize::MAX {
            Some(digits_value(d))
        } else {
            None
        }
    } else {
        None
    }
}

/// Reads the hook index out of a callback id such as `hook_3`.
pub fn parse_callback_index(id: &str) -> (r: Option<usize>)
    ensures
        match r {
            Some(i) => callback_index(id@) == Some(i as nat),
            None => callback_index(id@) is None,
        },
{
    let prefix = "hook_";
    proof {
        reveal_strlit("hook_");
    }
    let n = id.unicode_len();
    if n < 5 {
        return None;
    }
    let head = id.substring_char(0, 5);
    let mut k: usize = 0;
    while k < 5
        invariant
            k <= 5,
            n == id@.len(),
            n >= 5,
            head@ == id@.subrange(0, 5),
            prefix@ == "hook_"@,
            prefix@.len() == 5,
            forall|m: int| 0 <= m < k ==> head@[m] == prefix@[m],
        decreases 5 - k,
    {
        if head.get_char(k) != prefix.get_char(k) {
            assert(id@.subrange(0, 5)[k as int] != "hook_"@[k as int]);
            return None;
        }
        k = k + 1;
    }
    assert(id@.subrange(0, 5) =~= "hook_"@);
    let rest = id.substring_char(5, n);
    assert(rest@ == id@.subrange(5, id@.len() as int));
    let mut start: usize = 0;
    let rn = rest.unicode_len();
    if rn > 0 && rest.get_char(0) == '+' {
        start = 1;
    }
    let digits = rest.substring_char(start, rn);
    assert(digits@ =~= index_digits(rest@));
    let dn = digits.unicode_len();
    if dn == 0 {
        return None;
    }
    let mut acc: usize = 0;
    let mut i: usize = 0;
    while i < dn
        invariant
            i <= dn,
            dn == digits@.len(),
            id@.len() >= 5,
            id@.subrange(0, 5) == "hook_"@,
            digits@ == index_digits(id@.subrange(5, id@.len() as int)),
            forall|m: int| 0 <= m < i ==> '0' <= #[trigger] digits@[m] <= '9',
            acc as nat == digits_value(digits@.subrange(0, i as int)),
        decreases dn - i,
    {
        let c = digits.get_char(i);
        if c < '0' || c > '9' {
            proof {
                assert(!is_digits(digits@));
                assert(callback_index(id@) is None);
            }
            return None;
        }
        let dv = (c as u32 - '0' as u32) as usize;
        assert(digits@.subrange(0, i + 1).drop_last() =~= digits@.subrange(0, i as int));
        if acc > (usize::MAX - dv) / 10 {
            proof {
                if is_digits(digits@) {
                    lemma_digits_value_grows(digits@, (i + 1) as int);
                }
                assert(digits_value(digits@.subrange(0, i + 1)) == acc * 10 + dv) by (nonlinear_arith)
                    requires
                        digits_value(digits@.subrange(0, i + 1)) == digits_value(
                            digits@.subrange(0, i as int),
                        ) * 10 + dv,
                        acc as nat == digits_value(digits@.subrange(0, i as int)),
                ;
                assert(acc * 10 + dv > usize::MAX) by (nonlinear_arith)
                    requires
                        acc > (usize::MAX - dv) / 10,
                        dv <= 9,
                ;
                assert(digits@.subrange(0, dn as int) =~= digits@);
                assert(callback_index(id@) is None);
            }
            return None;
        }
        assert(acc * 10 + dv <= usize::MAX) by (nonlinear_arith)
            requires
                acc <= (usize::MAX - dv) / 10,
                dv <= 9,
        ;
        acc = acc * 10 + dv;
        i = i + 1;
    }
    assert(digits@.subrange(0, dn as int) =~= digits@);
    Some(acc)
}

/// The ASCII digit for `d`.
pub open spec fn digit_char(d: nat) -> char {
    "0123456789"@[d as int]
}

/// `n` written in decimal, without leading zeros.
pub open spec fn decimal(n: nat) -> Seq<char>
    decreases n,
{
    if n < 10 {
        seq![digit_char(n)]
    } else {
        decimal(n / 10).push(digit_char(n % 10))
    }
}

proof fn lemma_digit_char(d: nat)
    requires
        d < 10,
    ensures
        '0' <= digit_char(d) <= '9',
        digit_char(d) as nat - '0' as nat == d,
{
    reveal_strlit("0123456789");
    if d == 0 {
    } else if d == 1 {
    } else if d == 2 {
    } else if d == 3 {
    } else if d == 4 {
    } else if d == 5 {
    } else if d == 6 {
    } else if d == 7 {
    } else if d == 8 {
    } else {
    }
}

/// The decimal text of `n` is a run of digits that reads back as `n`.
pub proof fn lemma_decimal(n: nat)
    ensures
        is_digits(decimal(n)),
        digits_value(decimal(n)) == n,
    decreases n,
{
    if n < 10 {
        lemma_digit_char(n);
        assert(decimal(n).drop_last() =~= Seq::<char>::empty());
        assert(digits_value(Seq::<char>::empty()) == 0);
        assert(digits_value(decimal(n)) == 0 * 10 + (digit_char(n) as nat - '0' as nat) as nat);
    } else {
        lemma_decimal(n / 10);
        lemma_digit_char(n % 10);
        assert(decimal(n).drop_last() =~= decimal(n / 10));
        assert(decimal(n).last() == digit_char(n % 10));
        assert((n / 10) * 10 + n % 10 == n) by (nonlinear_arith);
        assert(digits_value(decimal(n)) == digits_value(decimal(n / 10)) * 10 + (digit_char(n % 10) as nat - '0' as nat) as nat);
        assert forall|i: int| 0 <= i < decimal(n).len() implies '0' <= #[trigger] decimal(n)[i] <= '9' by {
            if i < decimal(n / 10).len() {
                assert(decimal(n)[i] == decimal(n / 10)[i]);
            }
        }
    }
}

/// The callback id `hook_<i>` names hook `i`.
pub proof fn lemma_callback_index_of_decimal(i: usize)
    ensures
        callback_index("hook_"@ + decimal(i as nat)) == Some(i as nat),
{
    reveal_strlit("hook_");
    let id = "hook_"@ + decimal(i as nat);
    lemma_decimal(i as nat);
    assert(id.subrange(0, 5) =~= "hook_"@);
    assert(id.subrange(5, id.len() as int) =~= decimal(i as nat));
    assert(decimal(i as nat)[0] != '+');
}

/// The value of a prefix of digits never exceeds the value of the whole.
proof fn lemma_digits_value_grows(d: Seq<char>, k: int)
    requires
        0 <= k <= d.len(),
        forall|m: int| 0 <= m < d.len() ==> '0' <= #[trigger] d[m] <= '9',
    ensures
        digits_value(d.subrange(0, k)) <= digits_value(d),
    decreases d.len() - k,
{
    if k < d.len() {
        lemma_digits_value_grows(d, k + 1);
        assert(d.subrange(0, k + 1).drop_last() =~= d.subrange(0, k));
    } else {
        assert(d.subrange(0, k) =~= d);
    }
}

} // verus!
