//! The per-action structured-trace collector.
//!
//! An `ActionLog` lives from action entry to action exit.  It absorbs every
//! structured log event, span transition and recorded field emitted while the
//! action is live, keeps its result monotone over the severities it has seen,
//! and at exit produces one immutable `ActionLogMessage`.

use vstd::prelude::*;
use indexmap::IndexMap;
use std::collections::hash_map::RandomState;
use crate::ordmap::ctx_entries;
use crate::ordmap::ctx_insert;
use crate::ordmap::ctx_new;
use crate::ordmap::spec_stat_add;
use crate::ordmap::spec_upsert;
use crate::ordmap::stat_add;
use crate::ordmap::stat_entries;
use crate::ordmap::stat_insert;
use crate::ordmap::stat_new;
use crate::strfmt::join_lines;
use crate::strfmt::padded_dec;
use crate::strfmt::push_char;
use crate::strfmt::spec_dec_digits;
use crate::strfmt::spec_join_lines;
use crate::strfmt::spec_padded_dec;
use crate::strfmt::str_eq;
use crate::strfmt::u128_to_string;
use crate::strfmt::u64_to_string;
use crate::time::format_duration;
use crate::time::rfc3339_nanos;
use crate::time::spec_duration;
use crate::time::spec_rfc3339;
use vstd::string::StrSliceExecFns;
use vstd::string::StringExecFns;

verus! {

/// Severity of one structured log event.
#[derive(Clone, Copy, PartialEq, Eq, Structural, Debug)]
pub enum Level {
    Trace,
    Debug,
    Info,
    Warn,
    Error,
}

impl Level {
    pub open spec fn spec_name(self) -> Seq<char> {
        match self {
            Level::Trace => "TRACE"@,
            Level::Debug => "DEBUG"@,
            Level::Info => "INFO"@,
            Level::Warn => "WARN"@,
            Level::Error => "ERROR"@,
        }
    }

    pub fn name(&self) -> (r: String)
        ensures
            r@ == self.spec_name(),
    {
        match self {
            Level::Trace => "TRACE".to_owned(),
            Level::Debug => "DEBUG".to_owned(),
            Level::Info => "INFO".to_owned(),
            Level::Warn => "WARN".to_owned(),
            Level::Error => "ERROR".to_owned(),
        }
    }

    /// Holds for the levels whose name is written into a trace line.
    pub open spec fn spec_at_most_info(self) -> bool {
        self is Error || self is Warn || self is Info
    }

    /// The action result that one event of this level forces.
    pub open spec fn spec_event_result(self) -> ActionResult {
        match self {
            Level::Error => ActionResult::Error,
            Level::Warn => ActionResult::Warn,
            _ => ActionResult::Okay,
        }
    }
}

/// Highest severity seen in an action.
#[derive(Clone, Copy, PartialEq, Eq, Structural, Debug)]
pub enum ActionResult {
    Okay,
    Warn,
    Error,
}

impl ActionResult {
    pub open spec fn spec_level(self) -> int {
        match self {
            ActionResult::Okay => 0,
            ActionResult::Warn => 1,
            ActionResult::Error => 2,
        }
    }

    pub fn level(&self) -> (r: u32)
        ensures
            r == self.spec_level(),
    {
        match self {
            ActionResult::Okay => 0,
            ActionResult::Warn => 1,
            ActionResult::Error => 2,
        }
    }

    pub open spec fn spec_name(self) -> Seq<char> {
        match self {
            ActionResult::Okay => "OK"@,
            ActionResult::Warn => "WARN"@,
            ActionResult::Error => "ERROR"@,
        }
    }

    pub fn name(&self) -> (r: String)
        ensures
            r@ == self.spec_name(),
    {
        match self {
            ActionResult::Okay => "OK".to_owned(),
            ActionResult::Warn => "WARN".to_owned(),
            ActionResult::Error => "ERROR".to_owned(),
        }
    }
}

/// The larger of two results by severity.
pub open spec fn spec_result_max(a: ActionResult, b: ActionResult) -> ActionResult {
    if b.spec_level() > a.spec_level() {
        b
    } else {
        a
    }
}

/// One recorded field of a log event or span.
///
/// `Text` carries a field recorded as a plain string; `Rendered` one recorded
/// through its debug rendering, already turned into text by the caller;
/// `Number` a numeric field coerced to an unsigned integer.
pub enum FieldData {
    Text(String),
    Rendered(String),
    Number(u128),
}

pub struct LogField {
    pub name: String,
    pub data: FieldData,
}

impl LogField {
    pub fn text(name: &str, value: &str) -> (r: LogField)
        ensures
            r.name@ == name@,
            r.data matches FieldData::Text(v) && v@ == value@,
    {
        LogField { name: name.to_owned(), data: FieldData::Text(value.to_owned()) }
    }

    pub fn rendered(name: &str, value: &str) -> (r: LogField)
        ensures
            r.name@ == name@,
            r.data matches FieldData::Rendered(v) && v@ == value@,
    {
        LogField { name: name.to_owned(), data: FieldData::Rendered(value.to_owned()) }
    }

    pub fn number(name: &str, value: u128) -> (r: LogField)
        ensures
            r.name@ == name@,
            r.data matches FieldData::Number(v) && v == value,
    {
        LogField { name: name.to_owned(), data: FieldData::Number(value) }
    }
}

/// The textual rendering of one field inside a trace line.
///
/// A plain-string `backtrace` field starts a new line; a plain-string
/// `error_code` field is left out here (it is written separately, in
/// brackets); the event message is written bare; every other field is written
/// `name=value `.
pub open spec fn spec_field_text(f: LogField) -> Seq<char> {
    match f.data {
        FieldData::Text(v) => {
            if f.name@ == "backtrace"@ {
                "\n"@ + v@
            } else if f.name@ == "error_code"@ {
                Seq::empty()
            } else {
                f.name@ + "="@ + v@ + " "@
            }
        },
        FieldData::Rendered(v) => {
            if f.name@ == "message"@ {
                v@ + " "@
            } else {
                f.name@ + "="@ + v@ + " "@
            }
        },
        FieldData::Number(n) => f.name@ + "="@ + spec_dec_digits(n as int) + " "@,
    }
}

/// The concatenated rendering of a field list, in order.
pub open spec fn spec_fields_text(fields: Seq<LogField>) -> Seq<char>
    decreases fields.len(),
{
    if fields.len() == 0 {
        Seq::empty()
    } else {
        spec_fields_text(fields.drop_last()) + spec_field_text(fields.last())
    }
}

/// Appends the rendering of one field to `out`.
pub fn append_field_text(out: &mut String, f: &LogField)
    ensures
        final(out)@ == old(out)@ + spec_field_text(*f),
{
    match &f.data {
        FieldData::Text(v) => {
            if str_eq(f.name.as_str(), "backtrace") {
                out.append("\n");
                out.append(v.as_str());
            } else if str_eq(f.name.as_str(), "error_code") {
            } else {
                out.append(f.name.as_str());
                out.append("=");
                out.append(v.as_str());
                out.append(" ");
            }
        },
        FieldData::Rendered(v) => {
            if str_eq(f.name.as_str(), "message") {
                out.append(v.as_str());
                out.append(" ");
            } else {
                out.append(f.name.as_str());
                out.append("=");
                out.append(v.as_str());
                out.append(" ");
            }
        },
        FieldData::Number(n) => {
            out.append(f.name.as_str());
            out.append("=");
            let d = u128_to_string(*n);
            out.append(d.as_str());
            out.append(" ");
        },
    }
}

/// Appends the rendering of every field, in order.
pub fn append_fields_text(out: &mut String, fields: &Vec<LogField>)
    ensures
        final(out)@ == old(out)@ + spec_fields_text(fields@),
{
    let mut i: usize = 0;
    proof {
        assert(old(out)@ + spec_fields_text(fields@.take(0)) =~= old(out)@);
    }
    while i < fields.len()
        invariant
            i <= fields.len(),
            out@ == old(out)@ + spec_fields_text(fields@.take(i as int)),
        decreases fields.len() - i,
    {
        append_field_text(out, &fields[i]);
        proof {
            assert(fields@.take(i + 1).drop_last() =~= fields@.take(i as int));
            assert(fields@.take(i + 1).last() == fields@[i as int]);
        }
        i += 1;
    }
    proof {
        assert(fields@.take(fields@.len() as int) =~= fields@);
    }
}

/// The transient state of one live action.
pub struct ActionLog {
    pub id: String,
    pub action: String,
    pub date_nanos: i64,
    pub result: ActionResult,
    pub ref_id: Option<String>,
    pub error_code: Option<String>,
    pub error_message: Option<String>,
    pub context: IndexMap<String, String, RandomState>,
    pub stats: IndexMap<String, u128, RandomState>,
    pub logs: Vec<String>,
}

/// The header block that opens every trace: the begin marker and the
/// action's identity, one fact per line.
pub open spec fn spec_begin_header(
    action: Seq<char>,
    id: Seq<char>,
    date_nanos: int,
    thread: Seq<char>,
) -> Seq<char> {
    "=== action begin ===\ntype="@ + action + "\nid="@ + id + "\ndate="@ + spec_rfc3339(date_nanos)
        + "\nthread="@ + thread
}

impl ActionLog {
    /// Opens a fresh action: result `OK`, empty maps, and a trace primed with
    /// the header block and, when a correlation id was inherited, one
    /// `ref_id=` line.
    pub fn new(
        id: String,
        action: String,
        ref_id: Option<String>,
        date_nanos: i64,
        thread: &str,
    ) -> (r: ActionLog)
        requires
            date_nanos >= 0,
        ensures
            r.id == id,
            r.action == action,
            r.date_nanos == date_nanos,
            r.result == ActionResult::Okay,
            r.ref_id == ref_id,
            r.error_code is None,
            r.error_message is None,
            ctx_entries(r.context) == Seq::<(Seq<char>, Seq<char>)>::empty(),
            stat_entries(r.stats) == Seq::<(Seq<char>, u128)>::empty(),
            r.logs@.len() == (if ref_id is Some {
                2int
            } else {
                1int
            }),
            r.logs@[0]@ == spec_begin_header(action@, id@, date_nanos as int, thread@),
            ref_id matches Some(rid) ==> r.logs@[1]@ == "ref_id="@ + rid@,
    {
        let mut header = "=== action begin ===\ntype=".to_owned();
        header.append(action.as_str());
        header.append("\nid=");
        header.append(id.as_str());
        header.append("\ndate=");
        let date = rfc3339_nanos(date_nanos);
        header.append(date.as_str());
        header.append("\nthread=");
        header.append(thread);
        proof {
            assert(header@ =~= spec_begin_header(action@, id@, date_nanos as int, thread@));
        }
        let mut logs: Vec<String> = Vec::new();
        logs.push(header);
        match &ref_id {
            Some(rid) => {
                let mut line = "ref_id=".to_owned();
                line.append(rid.as_str());
                proof {
                    assert(line@ =~= "ref_id="@ + rid@);
                }
                logs.push(line);
            },
            None => {},
        }
        ActionLog {
            id,
            action,
            date_nanos,
            result: ActionResult::Okay,
            ref_id,
            error_code: None,
            error_message: None,
            context: ctx_new(),
            stats: stat_new(),
            logs,
        }
    }

    /// Notes a span opening: `[span:NAME] field=value ... >>>`.
    pub fn on_span_open(&mut self, span_name: &str, fields: &Vec<LogField>)
        ensures
            final(self).logs@.len() == old(self).logs@.len() + 1,
            final(self).logs@.drop_last() == old(self).logs@,
            final(self).logs@.last()@ == "[span:"@ + span_name@ + "] "@ + spec_fields_text(fields@)
                + ">>>"@,
            final(self).result == old(self).result,
            final(self).context == old(self).context,
            final(self).stats == old(self).stats,
            final(self).id == old(self).id,
            final(self).action == old(self).action,
            final(self).date_nanos == old(self).date_nanos,
            final(self).ref_id == old(self).ref_id,
            final(self).error_code == old(self).error_code,
            final(self).error_message == old(self).error_message,
    {
        let mut line = "[span:".to_owned();
        line.append(span_name);
        line.append("] ");
        append_fields_text(&mut line, fields);
        line.append(">>>");
        proof {
            assert(line@ =~= "[span:"@ + span_name@ + "] "@ + spec_fields_text(fields@) + ">>>"@);
        }
        self.logs.push(line);
    }

    /// Notes fields recorded on a live span: `[span:NAME] field=value ...`.
    pub fn on_span_record(&mut self, span_name: &str, fields: &Vec<LogField>)
        ensures
            final(self).logs@.len() == old(self).logs@.len() + 1,
            final(self).logs@.drop_last() == old(self).logs@,
            final(self).logs@.last()@ == "[span:"@ + span_name@ + "] "@ + spec_fields_text(
                fields@,
            ),
            final(self).result == old(self).result,
            final(self).context == old(self).context,
            final(self).stats == old(self).stats,
            final(self).id == old(self).id,
            final(self).action == old(self).action,
            final(self).date_nanos == old(self).date_nanos,
            final(self).ref_id == old(self).ref_id,
            final(self).error_code == old(self).error_code,
            final(self).error_message == old(self).error_message,
    {
        let mut line = "[span:".to_owned();
        line.append(span_name);
        line.append("] ");
        append_fields_text(&mut line, fields);
        proof {
            assert(line@ =~= "[span:"@ + span_name@ + "] "@ + spec_fields_text(fields@));
        }
        self.logs.push(line);
    }

    /// Notes a span closing: appends `[span:NAME] elapsed=... <<<`, adds the
    /// span's nanoseconds to `{NAME}_elapsed` and one to `{NAME}_count`.
    pub fn on_span_close(&mut self, span_name: &str, elapsed_nanos: u128)
        ensures
            final(self).logs@.len() == old(self).logs@.len() + 1,
            final(self).logs@.drop_last() == old(self).logs@,
            final(self).logs@.last()@ == "[span:"@ + span_name@ + "] elapsed="@ + spec_duration(
                elapsed_nanos as int,
            ) + " <<<"@,
            stat_entries(final(self).stats) == spec_stat_add(
                spec_stat_add(
                    stat_entries(old(self).stats),
                    span_name@ + "_elapsed"@,
                    elapsed_nanos,
                ),
                span_name@ + "_count"@,
                1,
            ),
            final(self).result == old(self).result,
            final(self).context == old(self).context,
            final(self).id == old(self).id,
            final(self).action == old(self).action,
            final(self).date_nanos == old(self).date_nanos,
            final(self).ref_id == old(self).ref_id,
            final(self).error_code == old(self).error_code,
            final(self).error_message == old(self).error_message,
    {
        let mut line = "[span:".to_owned();
        line.append(span_name);
        line.append("] elapsed=");
        let dur = format_duration(elapsed_nanos);
        line.append(dur.as_str());
        line.append(" <<<");
        proof {
            assert(line@ =~= "[span:"@ + span_name@ + "] elapsed="@ + spec_duration(
                elapsed_nanos as int,
            ) + " <<<"@);
        }
        self.logs.push(line);
        let mut key = span_name.to_owned();
        key.append("_elapsed");
        stat_add(&mut self.stats, key, elapsed_nanos);
        let mut key = span_name.to_owned();
        key.append("_count");
        stat_add(&mut self.stats, key, 1);
    }
}

} // verus!

verus! {

/// The severity code captured from an event: the last plain-string field
/// named `error_code`.
pub open spec fn spec_event_code(fields: Seq<LogField>) -> Option<Seq<char>>
    decreases fields.len(),
{
    if fields.len() == 0 {
        None
    } else {
        match fields.last().data {
            FieldData::Text(v) => {
                if fields.last().name@ == "error_code"@ {
                    Some(v@)
                } else {
                    spec_event_code(fields.drop_last())
                }
            },
            _ => spec_event_code(fields.drop_last()),
        }
    }
}

/// The message captured from an event: the last rendered field named
/// `message`.
pub open spec fn spec_event_message(fields: Seq<LogField>) -> Option<Seq<char>>
    decreases fields.len(),
{
    if fields.len() == 0 {
        None
    } else {
        match fields.last().data {
            FieldData::Rendered(v) => {
                if fields.last().name@ == "message"@ {
                    Some(v@)
                } else {
                    spec_event_message(fields.drop_last())
                }
            },
            _ => spec_event_message(fields.drop_last()),
        }
    }
}

/// A message kept to at most 200 characters: longer ones are cut to their
/// 200-character prefix.
pub open spec fn spec_truncate(s: Seq<char>) -> Seq<char> {
    if s.len() > 200 {
        s.take(200)
    } else {
        s
    }
}

/// Cuts a message to at most 200 characters.
pub fn truncate_message(m: &str) -> (r: String)
    ensures
        r@ == spec_truncate(m@),
{
    let n = m.unicode_len();
    if n > 200 {
        let cut = m.substring_char(0, 200);
        proof {
            assert(cut@ =~= spec_truncate(m@));
        }
        cut.to_owned()
    } else {
        m.to_owned()
    }
}

/// The view of an optional string.
pub open spec fn opt_str_view(o: Option<String>) -> Option<Seq<char>> {
    match o {
        None => None,
        Some(s) => Some(s@),
    }
}

/// Extracts the error code and the truncated message of an event.
fn extract_error(fields: &Vec<LogField>) -> (r: (Option<String>, Option<String>))
    ensures
        opt_str_view(r.0) == spec_event_code(fields@),
        r.1 is Some <==> spec_event_message(fields@) is Some,
        spec_event_message(fields@) matches Some(m) ==> opt_str_view(r.1) == Some::<Seq<char>>(
            spec_truncate(m),
        ),
{
    let mut code: Option<String> = None;
    let mut message: Option<String> = None;
    let mut i: usize = 0;
    proof {
        assert(fields@.take(0) =~= Seq::<LogField>::empty());
    }
    while i < fields.len()
        invariant
            i <= fields.len(),
            opt_str_view(code) == spec_event_code(fields@.take(i as int)),
            message is Some <==> spec_event_message(fields@.take(i as int)) is Some,
            spec_event_message(fields@.take(i as int)) matches Some(m) ==> opt_str_view(message)
                == Some::<Seq<char>>(spec_truncate(m)),
        decreases fields.len() - i,
    {
        let f = &fields[i];
        proof {
            assert(fields@.take(i + 1).drop_last() =~= fields@.take(i as int));
            assert(fields@.take(i + 1).last() == fields@[i as int]);
        }
        match &f.data {
            FieldData::Text(v) => {
                if str_eq(f.name.as_str(), "error_code") {
                    code = Some(v.clone());
                }
            },
            FieldData::Rendered(v) => {
                if str_eq(f.name.as_str(), "message") {
                    message = Some(truncate_message(v.as_str()));
                }
            },
            FieldData::Number(_) => {},
        }
        i += 1;
    }
    proof {
        assert(fields@.take(fields@.len() as int) =~= fields@);
    }
    (code, message)
}

/// `MM:SS.NNNNNNNNN `: the elapsed time since action entry that opens every
/// event line, zero-padded so that lines sort by time.
pub open spec fn spec_elapsed_prefix(e: int) -> Seq<char> {
    spec_padded_dec(e / 1000000000 / 60, 2) + ":"@ + spec_padded_dec(e / 1000000000 % 60, 2) + "."@
        + spec_padded_dec(e % 1000000000, 9) + " "@
}

/// One rendered event line: the elapsed prefix, the level name for levels at
/// or above INFO, `target:line `, the bracketed error code of a WARN or ERROR
/// event that carries one, and the rendered fields.
pub open spec fn spec_event_line(
    level: Level,
    target: Seq<char>,
    line_no: int,
    fields: Seq<LogField>,
    elapsed: int,
) -> Seq<char> {
    spec_elapsed_prefix(elapsed) + (if level.spec_at_most_info() {
        level.spec_name() + " "@
    } else {
        Seq::empty()
    }) + target + ":"@ + spec_dec_digits(line_no) + " "@ + (if (level is Warn || level is Error)
        && spec_event_code(fields) is Some {
        "["@ + spec_event_code(fields)->Some_0 + "] "@
    } else {
        Seq::empty()
    }) + spec_fields_text(fields)
}

/// The context map after recording a `context` event: every field but the
/// message becomes an entry, in field order; strings verbatim, rendered and
/// numeric values as their text.
pub open spec fn spec_apply_context(
    entries: Seq<(Seq<char>, Seq<char>)>,
    fields: Seq<LogField>,
) -> Seq<(Seq<char>, Seq<char>)>
    decreases fields.len(),
{
    if fields.len() == 0 {
        entries
    } else {
        let prev = spec_apply_context(entries, fields.drop_last());
        let f = fields.last();
        match f.data {
            FieldData::Text(v) => spec_upsert(prev, f.name@, v@),
            FieldData::Rendered(v) => {
                if f.name@ == "message"@ {
                    prev
                } else {
                    spec_upsert(prev, f.name@, v@)
                }
            },
            FieldData::Number(n) => spec_upsert(prev, f.name@, spec_dec_digits(n as int)),
        }
    }
}

/// The stats map after recording a `stats` event: every numeric field is
/// added to the accumulator of its name, in field order.
pub open spec fn spec_apply_stats(
    entries: Seq<(Seq<char>, u128)>,
    fields: Seq<LogField>,
) -> Seq<(Seq<char>, u128)>
    decreases fields.len(),
{
    if fields.len() == 0 {
        entries
    } else {
        let prev = spec_apply_stats(entries, fields.drop_last());
        let f = fields.last();
        match f.data {
            FieldData::Number(n) => spec_stat_add(prev, f.name@, n),
            _ => prev,
        }
    }
}

impl ActionLog {
    /// Absorbs one structured log event raised inside the action.
    ///
    /// A TRACE event is dropped.  Every other event contributes exactly one
    /// trace line.  A WARN or ERROR event raises the action's result to its
    /// severity; on a strict raise the event's code and truncated message are
    /// captured.  An event whose message is exactly `context` stores its
    /// fields in the context map; one whose message is exactly `stats` adds
    /// its numeric fields to the stats accumulators.
    pub fn on_event(
        &mut self,
        level: Level,
        target: &str,
        line_no: u32,
        fields: &Vec<LogField>,
        elapsed_nanos: u128,
    )
        ensures
            level is Trace ==> *final(self) == *old(self),
            !(level is Trace) ==> {
                &&& final(self).logs@.len() == old(self).logs@.len() + 1
                &&& final(self).logs@.drop_last() == old(self).logs@
                &&& final(self).logs@.last()@ == spec_event_line(
                    level,
                    target@,
                    line_no as int,
                    fields@,
                    elapsed_nanos as int,
                )
                &&& final(self).result == spec_result_max(
                    old(self).result,
                    level.spec_event_result(),
                )
                &&& (if level.spec_event_result().spec_level() > old(self).result.spec_level() {
                    &&& opt_str_view(final(self).error_code) == spec_event_code(fields@)
                    &&& (spec_event_message(fields@) matches Some(m) ==> opt_str_view(
                        final(self).error_message,
                    ) == Some::<Seq<char>>(spec_truncate(m)))
                    &&& (spec_event_message(fields@) is None ==> final(self).error_message is None)
                } else {
                    &&& final(self).error_code == old(self).error_code
                    &&& final(self).error_message == old(self).error_message
                })
                &&& (if spec_event_message(fields@) == Some("context"@) {
                    ctx_entries(final(self).context) == spec_apply_context(
                        ctx_entries(old(self).context),
                        fields@,
                    )
                } else {
                    final(self).context == old(self).context
                })
                &&& (if spec_event_message(fields@) == Some("stats"@) {
                    stat_entries(final(self).stats) == spec_apply_stats(
                        stat_entries(old(self).stats),
                        fields@,
                    )
                } else {
                    final(self).stats == old(self).stats
                })
            },
            final(self).id == old(self).id,
            final(self).action == old(self).action,
            final(self).date_nanos == old(self).date_nanos,
            final(self).ref_id == old(self).ref_id,
    {
        if let Level::Trace = level {
            return ;
        }
        let secs = elapsed_nanos / 1000000000;
        let mut line = padded_dec(secs / 60, 2);
        line.append(":");
        let p = padded_dec(secs % 60, 2);
        line.append(p.as_str());
        line.append(".");
        let p = padded_dec(elapsed_nanos % 1000000000, 9);
        line.append(p.as_str());
        line.append(" ");
        proof {
            assert(line@ =~= spec_elapsed_prefix(elapsed_nanos as int));
        }
        let ghost part_prefix = line@;
        let at_most_info = match level {
            Level::Error => true,
            Level::Warn => true,
            Level::Info => true,
            _ => false,
        };
        if at_most_info {
            let n = level.name();
            line.append(n.as_str());
            line.append(" ");
        }
        proof {
            assert(line@ =~= part_prefix + (if level.spec_at_most_info() {
                level.spec_name() + " "@
            } else {
                Seq::<char>::empty()
            }));
        }
        let ghost part_level = line@;
        line.append(target);
        line.append(":");
        let d = u64_to_string(line_no as u64);
        line.append(d.as_str());
        line.append(" ");
        proof {
            assert(line@ =~= part_level + target@ + ":"@ + spec_dec_digits(line_no as int) + " "@);
        }
        let ghost part_target = line@;
        let (code, message) = extract_error(fields);
        let is_warn_or_error = match level {
            Level::Error => true,
            Level::Warn => true,
            _ => false,
        };
        if is_warn_or_error {
            match &code {
                Some(c) => {
                    line.append("[");
                    line.append(c.as_str());
                    line.append("] ");
                },
                None => {},
            }
        }
        proof {
            assert(line@ =~= part_target + (if (level is Warn || level is Error)
                && spec_event_code(fields@) is Some {
                "["@ + spec_event_code(fields@)->Some_0 + "] "@
            } else {
                Seq::<char>::empty()
            }));
        }
        let ghost part_code = line@;
        append_fields_text(&mut line, fields);
        proof {
            assert(line@ == part_code + spec_fields_text(fields@));
            assert(line@ =~= spec_event_line(
                level,
                target@,
                line_no as int,
                fields@,
                elapsed_nanos as int,
            ));
        }
        self.logs.push(line);
        if is_warn_or_error {
            let event_result = match level {
                Level::Error => ActionResult::Error,
                _ => ActionResult::Warn,
            };
            if self.result.level() < event_result.level() {
                self.result = event_result;
                self.error_code = code;
                self.error_message = message.clone();
            }
        }
        match &message {
            Some(m) => {
                if str_eq(m.as_str(), "context") {
                    proof {
                        reveal_strlit("context");
                        reveal_strlit("stats");
                        assert(spec_event_message(fields@) == Some("context"@));
                    }
                    self.apply_context(fields);
                } else if str_eq(m.as_str(), "stats") {
                    proof {
                        reveal_strlit("stats");
                        reveal_strlit("context");
                        assert(spec_event_message(fields@) == Some("stats"@));
                    }
                    self.apply_stats(fields);
                } else {
                    proof {
                        reveal_strlit("context");
                        reveal_strlit("stats");
                    }
                }
            },
            None => {},
        }
    }

    /// Stores every non-message field of a `context` event in the context
    /// map, in field order.
    fn apply_context(&mut self, fields: &Vec<LogField>)
        ensures
            ctx_entries(final(self).context) == spec_apply_context(
                ctx_entries(old(self).context),
                fields@,
            ),
            final(self).result == old(self).result,
            final(self).stats == old(self).stats,
            final(self).logs == old(self).logs,
            final(self).id == old(self).id,
            final(self).action == old(self).action,
            final(self).date_nanos == old(self).date_nanos,
            final(self).ref_id == old(self).ref_id,
            final(self).error_code == old(self).error_code,
            final(self).error_message == old(self).error_message,
    {
        let mut i: usize = 0;
        proof {
            assert(fields@.take(0) =~= Seq::<LogField>::empty());
        }
        while i < fields.len()
            invariant
                i <= fields.len(),
                ctx_entries(self.context) == spec_apply_context(
                    ctx_entries(old(self).context),
                    fields@.take(i as int),
                ),
                self.result == old(self).result,
                self.stats == old(self).stats,
                self.logs == old(self).logs,
                self.id == old(self).id,
                self.action == old(self).action,
                self.date_nanos == old(self).date_nanos,
                self.ref_id == old(self).ref_id,
                self.error_code == old(self).error_code,
                self.error_message == old(self).error_message,
            decreases fields.len() - i,
        {
            let f = &fields[i];
            proof {
                assert(fields@.take(i + 1).drop_last() =~= fields@.take(i as int));
                assert(fields@.take(i + 1).last() == fields@[i as int]);
            }
            match &f.data {
                FieldData::Text(v) => {
                    ctx_insert(&mut self.context, f.name.clone(), v.clone());
                },
                FieldData::Rendered(v) => {
                    if !str_eq(f.name.as_str(), "message") {
                        ctx_insert(&mut self.context, f.name.clone(), v.clone());
                    }
                },
                FieldData::Number(n) => {
                    let d = u128_to_string(*n);
                    ctx_insert(&mut self.context, f.name.clone(), d);
                },
            }
            i += 1;
        }
        proof {
            assert(fields@.take(fields@.len() as int) =~= fields@);
        }
    }

    /// Adds every numeric field of a `stats` event to the accumulator of its
    /// name, in field order.
    fn apply_stats(&mut self, fields: &Vec<LogField>)
        ensures
            stat_entries(final(self).stats) == spec_apply_stats(
                stat_entries(old(self).stats),
                fields@,
            ),
            final(self).result == old(self).result,
            final(self).context == old(self).context,
            final(self).logs == old(self).logs,
            final(self).id == old(self).id,
            final(self).action == old(self).action,
            final(self).date_nanos == old(self).date_nanos,
            final(self).ref_id == old(self).ref_id,
            final(self).error_code == old(self).error_code,
            final(self).error_message == old(self).error_message,
    {
        let mut i: usize = 0;
        proof {
            assert(fields@.take(0) =~= Seq::<LogField>::empty());
        }
        while i < fields.len()
            invariant
                i <= fields.len(),
                stat_entries(self.stats) == spec_apply_stats(
                    stat_entries(old(self).stats),
                    fields@.take(i as int),
                ),
                self.result == old(self).result,
                self.context == old(self).context,
                self.logs == old(self).logs,
                self.id == old(self).id,
                self.action == old(self).action,
                self.date_nanos == old(self).date_nanos,
                self.ref_id == old(self).ref_id,
                self.error_code == old(self).error_code,
                self.error_message == old(self).error_message,
            decreases fields.len() - i,
        {
            let f = &fields[i];
            proof {
                assert(fields@.take(i + 1).drop_last() =~= fields@.take(i as int));
                assert(fields@.take(i + 1).last() == fields@[i as int]);
            }
            match &f.data {
                FieldData::Number(n) => {
                    stat_add(&mut self.stats, f.name.clone(), *n);
                },
                _ => {},
            }
            i += 1;
        }
        proof {
            assert(fields@.take(fields@.len() as int) =~= fields@);
        }
    }
}

} // verus!

verus! {

/// A completed action's record, immutable once emitted and handed once to the
/// appender.
pub struct ActionLogMessage {
    pub id: String,
    pub date_nanos: i64,
    pub action: String,
    pub result: ActionResult,
    pub ref_id: Option<String>,
    pub error_code: Option<String>,
    pub error_message: Option<String>,
    pub context: IndexMap<String, String, RandomState>,
    pub stats: IndexMap<String, u128, RandomState>,
    pub trace: Option<String>,
}

impl ActionLogMessage {
    /// The context entries, in insertion order.
    pub fn context_entries(&self) -> (r: Vec<(String, String)>)
        ensures
            r@.len() == ctx_entries(self.context).len(),
            forall|i: int|
                0 <= i < r@.len() ==> r@[i].0@ == ctx_entries(self.context)[i].0 && r@[i].1@
                    == ctx_entries(self.context)[i].1,
    {
        crate::ordmap::ctx_to_vec(&self.context)
    }

    /// The stats entries, in insertion order.
    pub fn stats_entries(&self) -> (r: Vec<(String, u128)>)
        ensures
            r@.len() == stat_entries(self.stats).len(),
            forall|i: int|
                0 <= i < r@.len() ==> r@[i].0@ == stat_entries(self.stats)[i].0 && r@[i].1
                    == stat_entries(self.stats)[i].1,
    {
        crate::ordmap::stat_to_vec(&self.stats)
    }

    /// The accumulator stored under `key`, if present.
    pub fn stat(&self, key: &str) -> (r: Option<u128>)
        ensures
            r == crate::ordmap::spec_lookup(stat_entries(self.stats), key@),
    {
        crate::ordmap::stat_get(&self.stats, key)
    }
}

/// The footer that closes a populated trace.
pub open spec fn spec_trace_footer(elapsed: int) -> Seq<char> {
    "elapsed="@ + spec_duration(elapsed) + "\n=== action end ==="@
}

impl ActionLog {
    /// Finalizes the action after `elapsed_nanos` of wall time: stores the
    /// duration under the `elapsed` stat, and produces the record.  On a
    /// clean `OK` result the trace is absent; otherwise it is the framed,
    /// newline-joined block of every accumulated line plus the footer.
    pub fn close(self, elapsed_nanos: u128) -> (r: ActionLogMessage)
        ensures
            r.id == self.id,
            r.date_nanos == self.date_nanos,
            r.action == self.action,
            r.result == self.result,
            r.ref_id == self.ref_id,
            r.error_code == self.error_code,
            r.error_message == self.error_message,
            r.context == self.context,
            stat_entries(r.stats) == spec_upsert(
                stat_entries(self.stats),
                "elapsed"@,
                elapsed_nanos,
            ),
            self.result == ActionResult::Okay ==> r.trace is None,
            self.result != ActionResult::Okay ==> (r.trace matches Some(t) && t@
                == spec_join_lines(
                self.logs@.map_values(|l: String| l@).push(spec_trace_footer(elapsed_nanos as int)),
            )),
    {
        let mut stats = self.stats;
        stat_insert(&mut stats, "elapsed".to_owned(), elapsed_nanos);
        let result_level = self.result.level();
        let mut logs = self.logs;
        let trace: Option<String> = if result_level > 0 {
            let mut footer = "elapsed=".to_owned();
            let dur = format_duration(elapsed_nanos);
            footer.append(dur.as_str());
            footer.append("\n=== action end ===");
            proof {
                assert(footer@ =~= spec_trace_footer(elapsed_nanos as int));
            }
            let ghost before = logs@;
            logs.push(footer);
            let joined = join_lines(&logs);
            proof {
                assert(logs@.map_values(|l: String| l@) =~= before.map_values(|l: String| l@).push(
                    spec_trace_footer(elapsed_nanos as int),
                ));
            }
            Some(joined)
        } else {
            None
        };
        ActionLogMessage {
            id: self.id,
            date_nanos: self.date_nanos,
            action: self.action,
            result: self.result,
            ref_id: self.ref_id,
            error_code: self.error_code,
            error_message: self.error_message,
            context: self.context,
            stats,
            trace,
        }
    }
}

} // verus!
