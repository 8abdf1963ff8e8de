//! The decisions of the log-event router: recognising the `action` span,
//! reading an action's identity from its recorded fields, generating action
//! ids, the task-scoped action id, and turning a recorded exception into the
//! log event that the collector absorbs.

use vstd::prelude::*;
use crate::action::ActionLog;
use crate::action::FieldData;
use crate::action::Level;
use crate::action::LogField;
use crate::exception::Exception;
use crate::exception::Severity;
use crate::exception::spec_describe;
use crate::strfmt::push_char;
use crate::strfmt::str_eq;
use vstd::string::StringExecFns;

verus! {

/// The span name that bounds one action; the collector lives on that span.
pub fn is_action_span(span_name: &str) -> (r: bool)
    ensures
        r == (span_name@ == "action"@),
{
    str_eq(span_name, "action")
}

/// Collects an action's identity from the fields recorded at span creation.
pub struct ActionVisitor {
    pub action: Option<String>,
    pub action_id: Option<String>,
    pub ref_id: Option<String>,
}

impl ActionVisitor {
    pub fn new() -> (r: ActionVisitor)
        ensures
            r.action is None,
            r.action_id is None,
            r.ref_id is None,
    {
        ActionVisitor { action: None, action_id: None, ref_id: None }
    }

    /// Records one string field: `action`, `action_id` and `ref_id` fields
    /// set the matching slot; every other field is ignored.
    pub fn record_str(&mut self, name: &str, value: &str)
        ensures
            name@ == "action"@ ==> (final(self).action matches Some(v) && v@ == value@),
            name@ != "action"@ ==> final(self).action == old(self).action,
            name@ == "action_id"@ ==> (final(self).action_id matches Some(v) && v@ == value@),
            name@ != "action_id"@ ==> final(self).action_id == old(self).action_id,
            name@ == "ref_id"@ ==> (final(self).ref_id matches Some(v) && v@ == value@),
            name@ != "ref_id"@ ==> final(self).ref_id == old(self).ref_id,
    {
        proof {
            reveal_strlit("action");
            reveal_strlit("action_id");
            reveal_strlit("ref_id");
            assert("action"@[0] == 'a' && "ref_id"@[0] == 'r');
            assert("action"@.len() == 6 && "action_id"@.len() == 9 && "ref_id"@.len() == 6);
            assert("action"@ != "ref_id"@);
            assert("action"@ != "action_id"@);
            assert("action_id"@ != "ref_id"@);
        }
        if str_eq(name, "action") {
            self.action = Some(value.to_owned());
        } else if str_eq(name, "action_id") {
            self.action_id = Some(value.to_owned());
        } else if str_eq(name, "ref_id") {
            self.ref_id = Some(value.to_owned());
        }
    }

    /// Opens a collector for the span when both the action name and the
    /// action id were recorded; otherwise the span is not an action.
    pub fn action_log(self, date_nanos: i64, thread: &str) -> (r: Option<ActionLog>)
        requires
            date_nanos >= 0,
        ensures
            r is Some <==> (self.action is Some && self.action_id is Some),
            r matches Some(log) ==> {
                &&& log.action == self.action->Some_0
                &&& log.id == self.action_id->Some_0
                &&& log.ref_id == self.ref_id
                &&& log.date_nanos == date_nanos
                &&& log.result == crate::action::ActionResult::Okay
                &&& crate::ordmap::ctx_entries(log.context) == Seq::<(Seq<char>, Seq<char>)>::empty()
                &&& crate::ordmap::stat_entries(log.stats) == Seq::<(Seq<char>, u128)>::empty()
            },
    {
        match (self.action, self.action_id) {
            (Some(action), Some(action_id)) => Some(
                ActionLog::new(action_id, action, self.ref_id, date_nanos, thread),
            ),
            (action, _) => {
                proof {
                    assert(self.action is Some && self.action_id is Some ==> false);
                }
                None
            },
        }
    }
}

/// The hexadecimal character of one value below sixteen.
pub open spec fn spec_hex_char(d: int) -> char {
    if d < 10 {
        crate::strfmt::spec_digit_char(d)
    } else if d == 10 {
        'a'
    } else if d == 11 {
        'b'
    } else if d == 12 {
        'c'
    } else if d == 13 {
        'd'
    } else if d == 14 {
        'e'
    } else {
        'f'
    }
}

/// The last `k` hexadecimal digits of `n`, most significant first.
pub open spec fn spec_hex_digits(n: int, k: int) -> Seq<char>
    decreases k,
{
    if k <= 0 {
        Seq::empty()
    } else {
        spec_hex_digits(n / 16, k - 1).push(spec_hex_char(n % 16))
    }
}

fn hex_char(d: u64) -> (c: char)
    requires
        d < 16,
    ensures
        c == spec_hex_char(d as int),
{
    if d < 10 {
        crate::strfmt::digit_char(d as u8)
    } else if d == 10 {
        'a'
    } else if d == 11 {
        'b'
    } else if d == 12 {
        'c'
    } else if d == 13 {
        'd'
    } else if d == 14 {
        'e'
    } else {
        'f'
    }
}

/// Renders an action id: sixteen lowercase hexadecimal characters carrying
/// the 64 given bits.
pub fn format_action_id(bits: u64) -> (r: String)
    ensures
        r@ == spec_hex_digits(bits as int, 16),
        r@.len() == 16,
{
    hex_digits(bits, 16)
}

fn hex_digits(n: u64, k: usize) -> (r: String)
    ensures
        r@ == spec_hex_digits(n as int, k as int),
        r@.len() == k,
    decreases k,
{
    if k == 0 {
        String::new()
    } else {
        let mut s = hex_digits(n / 16, k - 1);
        push_char(&mut s, hex_char(n % 16));
        s
    }
}

/// The task-scoped slot that carries the current action's id across
/// suspension points; tasks outside any action carry none.
pub struct TaskContext {
    pub action_id: Option<String>,
}

/// The id of the action the task is running under, or none outside an action.
pub fn current_action_id(ctx: &TaskContext) -> (r: Option<String>)
    ensures
        crate::action::opt_str_view(r) == crate::action::opt_str_view(ctx.action_id),
        r is Some <==> ctx.action_id is Some,
{
    match &ctx.action_id {
        Some(id) => Some(id.clone()),
        None => None,
    }
}

/// The log event that records a captured exception: level per the severity,
/// the message as the event message, the code when present, and the rendered
/// chain as a `backtrace` field.
pub struct ExceptionEvent {
    pub level: Level,
    pub fields: Vec<LogField>,
}

/// Turns a captured exception into the event the collector absorbs: WARN or
/// ERROR per the severity; the fields carry the message, the code when one is
/// present, and the rendered cause chain as a backtrace.
pub fn log_exception(e: &Exception) -> (r: ExceptionEvent)
    requires
        e.depth() < 1000000,
    ensures
        r.level == (match e.severity {
            Severity::Warn => Level::Warn,
            Severity::Error => Level::Error,
        }),
        r.fields@.len() == (if e.code is Some {
            3int
        } else {
            2int
        }),
        r.fields@[0].name@ == "message"@ && (r.fields@[0].data matches FieldData::Rendered(m) && m@
            == e.message@),
        e.code matches Some(c) ==> r.fields@[1].name@ == "error_code"@ && (
        r.fields@[1].data matches FieldData::Text(v) && v@ == c@),
        r.fields@.last().name@ == "backtrace"@ && (r.fields@.last().data matches FieldData::Text(b)
            && b@ == spec_describe(*e, 0)),
{
    let level = match e.severity {
        Severity::Warn => Level::Warn,
        Severity::Error => Level::Error,
    };
    let mut fields: Vec<LogField> = Vec::new();
    fields.push(LogField::rendered("message", e.message.as_str()));
    match &e.code {
        Some(code) => {
            fields.push(LogField::text("error_code", code.as_str()));
        },
        None => {},
    }
    let chain = e.describe();
    fields.push(LogField::text("backtrace", chain.as_str()));
    ExceptionEvent { level, fields }
}

} // verus!
