//! Orchestration flows: step defaults, validation of a parsed flow, and
//! the condition operators.
use vstd::prelude::*;
use crate::text;
use crate::agent_api;

verus! {

/// Comparison a flow condition applies to a status field.
#[derive(Debug, Clone, Copy, PartialEq, Eq, Structural)]
pub enum CompareOp {
    Exists,
    Eq,
    Ne,
    Gt,
    Lt,
    Contains,
}

/// Default timeout (seconds) of a wait-ready step.
pub fn default_ready_timeout() -> (r: u64)
    ensures
        r == 120,
{
    120
}

/// Default timeout (seconds) of a wait-condition step.
pub fn default_condition_timeout() -> (r: u64)
    ensures
        r == 60,
{
    60
}

/// Default polling interval (milliseconds) of a wait-condition step.
pub fn default_poll_ms() -> (r: u64)
    ensures
        r == 500,
{
    500
}

/// What validation reads of a flow step. A sleep step's duration is a float
/// and is checked by the caller (finite, within 0-86400 seconds); an action
/// step's command is JSON, of which validation reads whether it is an
/// object.
#[derive(Debug, Clone)]
pub enum StepCheck {
    WaitReady { timeout_secs: u64 },
    WaitCondition { timeout_secs: u64, poll_ms: u64 },
    Action { command_is_object: bool },
    Schedule { op: String },
    Macro { op: String },
    Sleep { secs_in_range: bool },
}

/// What `{:?}` prints for a string: quoted, with escapes.
pub uninterp spec fn spec_debug_str(s: Seq<char>) -> Seq<char>;

/// `<str as Debug>::fmt`: the quoted, escaped form of `s`. Its value is
/// named, not described (the escapes follow Unicode tables).
#[verifier::external_body]
fn debug_str(s: &str) -> (r: String)
    ensures
        r@ == spec_debug_str(s@),
{
    format!("{:?}", s)
}

/// The complaint about step `i`, if any.
pub open spec fn step_problem(i: nat, step: StepCheck) -> Option<Seq<char>> {
    let at = "step "@ + text::decimal(i) + ": "@;
    match step {
        StepCheck::WaitReady { timeout_secs } => if timeout_secs == 0 || timeout_secs > 86400 {
            Some(at + "timeout_secs must be 1-86400"@)
        } else {
            None
        },
        StepCheck::WaitCondition { timeout_secs, poll_ms } => if timeout_secs == 0 || timeout_secs > 86400 {
            Some(at + "timeout_secs must be 1-86400"@)
        } else if poll_ms == 0 || poll_ms > 60000 {
            Some(at + "poll_ms must be 1-60000"@)
        } else {
            None
        },
        StepCheck::Sleep { secs_in_range } => if !secs_in_range {
            Some(at + "secs must be finite and within 0-86400"@)
        } else {
            None
        },
        StepCheck::Action { command_is_object } => if !command_is_object {
            Some(at + "action command must be an object"@)
        } else {
            None
        },
        StepCheck::Schedule { op } => if !(op@ == "add"@ || op@ == "status"@ || op@ == "remove"@) {
            Some(at + "unsupported schedule op "@ + spec_debug_str(op@))
        } else {
            None
        },
        StepCheck::Macro { op } => if !agent_api::macro_ops().contains(op@) {
            Some(at + "unsupported macro op "@ + spec_debug_str(op@))
        } else {
            None
        },
    }
}

/// The first complaint about the steps from index `i` on.
pub open spec fn first_step_problem(steps: Seq<StepCheck>, i: nat) -> Option<Seq<char>>
    decreases steps.len() - i,
{
    if i >= steps.len() {
        None
    } else {
        match step_problem(i, steps[i as int]) {
            Some(m) => Some(m),
            None => first_step_problem(steps, i + 1),
        }
    }
}

/// Why a flow is refused, or `None`: its name must be 1-128 bytes and not
/// blank, it must have 1-256 steps, and each step its bounds.
pub open spec fn flow_problem(name: &str, steps: Seq<StepCheck>) -> Option<Seq<char>> {
    if text::trim(name@).len() == 0 || name.len() > 128 {
        Some("flow name must be 1-128 characters"@)
    } else if steps.len() == 0 || steps.len() > 256 {
        Some("flow steps must contain 1-256 entries"@)
    } else {
        first_step_problem(steps, 0)
    }
}

fn check_step(i: usize, step: &StepCheck) -> (r: Option<String>)
    ensures
        r.deep_view() == step_problem(i as nat, *step),
{
    let mut at = "step ".to_owned();
    let d = text::u64_to_decimal(i as u64);
    text::push_chars(&mut at, d.as_slice());
    text::push_str(&mut at, ": ");
    match step {
        StepCheck::WaitReady { timeout_secs } => {
            if *timeout_secs == 0 || *timeout_secs > 86400 {
                text::push_str(&mut at, "timeout_secs must be 1-86400");
                return Some(at);
            }
            None
        },
        StepCheck::WaitCondition { timeout_secs, poll_ms } => {
            if *timeout_secs == 0 || *timeout_secs > 86400 {
                text::push_str(&mut at, "timeout_secs must be 1-86400");
                return Some(at);
            }
            if *poll_ms == 0 || *poll_ms > 60000 {
                text::push_str(&mut at, "poll_ms must be 1-60000");
                return Some(at);
            }
            None
        },
        StepCheck::Sleep { secs_in_range } => {
            if !*secs_in_range {
                text::push_str(&mut at, "secs must be finite and within 0-86400");
                return Some(at);
            }
            None
        },
        StepCheck::Action { command_is_object } => {
            if !*command_is_object {
                text::push_str(&mut at, "action command must be an object");
                return Some(at);
            }
            None
        },
        StepCheck::Schedule { op } => {
            if !(text::str_eq(op.as_str(), "add") || text::str_eq(op.as_str(), "status") || text::str_eq(
                op.as_str(),
                "remove",
            )) {
                text::push_str(&mut at, "unsupported schedule op ");
                let q = debug_str(op.as_str());
                text::push_str(&mut at, q.as_str());
                return Some(at);
            }
            None
        },
        StepCheck::Macro { op } => {
            if !agent_api::is_macro_op(op.as_str()) {
                text::push_str(&mut at, "unsupported macro op ");
                let q = debug_str(op.as_str());
                text::push_str(&mut at, q.as_str());
                return Some(at);
            }
            None
        },
    }
}

/// Validates a parsed flow (its name and what validation reads of its
/// steps).
pub fn validate(name: &str, steps: &Vec<StepCheck>) -> (r: Result<(), String>)
    ensures
        match flow_problem(name, steps@) {
            Some(m) => r matches Err(e) && e@ == m,
            None => r is Ok,
        },
{
    let t = text::trim_str(name);
    if t.as_str().is_empty() || name.len() > 128 {
        return Err("flow name must be 1-128 characters".to_owned());
    }
    if steps.len() == 0 || steps.len() > 256 {
        return Err("flow steps must contain 1-256 entries".to_owned());
    }
    let mut i: usize = 0;
    while i < steps.len()
        invariant
            i <= steps@.len(),
            steps@.len() <= 256,
            steps@.len() >= 1,
            text::trim(name@).len() != 0,
            name.len() <= 128,
            first_step_problem(steps@, 0) == first_step_problem(steps@, i as nat),
        decreases steps@.len() - i,
    {
        let c = check_step(i, &steps[i]);
        assert(first_step_problem(steps@, i as nat) == match step_problem(i as nat, steps@[i as int]) {
            Some(m) => Some(m),
            None => first_step_problem(steps@, (i + 1) as nat),
        });
        match c {
            Some(m) => {
                return Err(m);
            },
            None => {},
        }
        i += 1;
    }
    Ok(())
}

/// The bytes of a file without a leading UTF-8 byte order mark.
pub fn strip_bom(raw: &[u8]) -> (r: &[u8])
    ensures
        r@ == if raw@.len() >= 3 && raw@[0] == 0xEF && raw@[1] == 0xBB && raw@[2] == 0xBF {
            raw@.skip(3)
        } else {
            raw@
        },
{
    if raw.len() >= 3 && raw[0] == 0xEF && raw[1] == 0xBB && raw[2] == 0xBF {
        let n = raw.len();
        let r = &raw[3..n];
        assert(r@ =~= raw@.skip(3));
        r
    } else {
        raw
    }
}

} // verus!
