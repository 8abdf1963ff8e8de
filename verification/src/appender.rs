//! The sink that consumes completed action records.  The console appender
//! prints a one-line summary per record and, for a failed action, the trace
//! blob on the error stream; the summary itself is built by verified code.

use vstd::prelude::*;
use std::io::Write;
use crate::action::ActionLogMessage;
use crate::action::ActionResult;
use crate::ordmap::ctx_entries;
use crate::ordmap::spec_lookup;
use crate::ordmap::stat_entries;
use crate::time::format_duration;
use crate::time::rfc3339_nanos;
use crate::time::spec_duration;
use crate::time::spec_rfc3339;
use vstd::string::StringExecFns;

verus! {

/// Consumes completed action records: called once per completed action, with
/// a fully built record.
pub trait ActionLogAppender {
    fn append(&self, action_log: ActionLogMessage);
}

/// The ` | key=value` tail of the summary, one piece per context entry in
/// insertion order.
pub open spec fn spec_context_suffix(entries: Seq<(Seq<char>, Seq<char>)>) -> Seq<char>
    decreases entries.len(),
{
    if entries.len() == 0 {
        Seq::empty()
    } else {
        spec_context_suffix(entries.drop_last()) + " | "@ + entries.last().0 + "="@
            + entries.last().1
    }
}

/// The nanoseconds recorded under the `elapsed` stat, or zero before close.
pub open spec fn spec_elapsed_of(m: ActionLogMessage) -> int {
    match spec_lookup(stat_entries(m.stats), "elapsed"@) {
        Some(v) => v as int,
        None => 0,
    }
}

/// One summary line: `date | result | action | id=… | elapsed=…`, the
/// inherited correlation id when one exists, and every context entry.
pub open spec fn spec_summary(m: ActionLogMessage) -> Seq<char> {
    spec_rfc3339(if m.date_nanos >= 0 {
        m.date_nanos as int
    } else {
        0
    }) + " | "@ + m.result.spec_name() + " | "@ + m.action@ + " | id="@ + m.id@ + " | elapsed="@
        + spec_duration(spec_elapsed_of(m)) + (match m.ref_id {
        Some(rid) => " | ref_id="@ + rid@,
        None => Seq::empty(),
    }) + spec_context_suffix(ctx_entries(m.context))
}

/// Prints each record's summary to standard output and a failed action's
/// trace to the error stream.
pub struct ConsoleAppender;

impl ConsoleAppender {
    /// Builds the record's one-line summary.
    pub fn format_summary(m: &ActionLogMessage) -> (r: String)
        ensures
            r@ == spec_summary(*m),
    {
        let date = if m.date_nanos >= 0 {
            m.date_nanos
        } else {
            0
        };
        let mut s = rfc3339_nanos(date);
        s.append(" | ");
        let part = m.result.name();
        s.append(part.as_str());
        s.append(" | ");
        s.append(m.action.as_str());
        s.append(" | id=");
        s.append(m.id.as_str());
        s.append(" | elapsed=");
        let elapsed = match m.stat("elapsed") {
            Some(v) => v,
            None => 0,
        };
        let part = format_duration(elapsed);
        s.append(part.as_str());
        match &m.ref_id {
            Some(rid) => {
                s.append(" | ref_id=");
                s.append(rid.as_str());
            },
            None => {},
        }
        let ghost head = s@;
        let entries = m.context_entries();
        let mut i: usize = 0;
        proof {
            assert(head + spec_context_suffix(ctx_entries(m.context).take(0)) =~= head);
        }
        while i < entries.len()
            invariant
                i <= entries@.len(),
                entries@.len() == ctx_entries(m.context).len(),
                forall|j: int|
                    0 <= j < entries@.len() ==> entries@[j].0@ == ctx_entries(m.context)[j].0
                        && entries@[j].1@ == ctx_entries(m.context)[j].1,
                s@ == head + spec_context_suffix(ctx_entries(m.context).take(i as int)),
            decreases entries@.len() - i,
        {
            s.append(" | ");
            s.append(entries[i].0.as_str());
            s.append("=");
            s.append(entries[i].1.as_str());
            proof {
                assert(ctx_entries(m.context).take(i + 1).drop_last() =~= ctx_entries(
                    m.context,
                ).take(i as int));
                assert(ctx_entries(m.context).take(i + 1).last() == ctx_entries(
                    m.context,
                )[i as int]);
                assert(s@ =~= head + spec_context_suffix(ctx_entries(m.context).take(i + 1)));
            }
            i += 1;
        }
        proof {
            assert(ctx_entries(m.context).take(ctx_entries(m.context).len() as int) =~= ctx_entries(
                m.context,
            ));
            assert(s@ =~= spec_summary(*m));
        }
        s
    }
}

/// Relies on `std::io::Stdout::write_fmt`, through `writeln`: writes the line
/// to standard output.
#[verifier::external_body]
fn print_stdout(line: &str) {
    let _ = writeln!(std::io::stdout(), "{}", line);
}

/// Relies on `std::io::Stderr::write_fmt`, through `writeln`: writes the line
/// to the error stream.
#[verifier::external_body]
fn print_stderr(line: &str) {
    let _ = writeln!(std::io::stderr(), "{}", line);
}

impl ActionLogAppender for ConsoleAppender {
    fn append(&self, action_log: ActionLogMessage) {
        let line = ConsoleAppender::format_summary(&action_log);
        print_stdout(line.as_str());
        let failed = action_log.result.level() > 0;
        if failed {
            match &action_log.trace {
                Some(trace) => {
                    print_stderr(trace.as_str());
                },
                None => {},
            }
        }
    }
}

} // verus!
