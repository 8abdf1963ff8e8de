//! The collector's aggregate laws: what a whole action's worth of events
//! adds up to, proved over the same spec functions that the collector's
//! methods promise step by step.

use vstd::prelude::*;
use crate::action::ActionResult;
use crate::action::Level;
use crate::action::spec_begin_header;
use crate::action::spec_result_max;
use crate::action::spec_trace_footer;
use crate::ordmap::lemma_lookup_upsert;
use crate::ordmap::spec_lookup;
use crate::ordmap::spec_stat_add;
use crate::action::spec_elapsed_prefix;
use crate::strfmt::lemma_lex_refl;
use crate::strfmt::lemma_lex_concat;
use crate::strfmt::lemma_padded_dec_injective;
use crate::strfmt::lemma_padded_dec_len;
use crate::strfmt::lemma_padded_dec_lex;
use crate::strfmt::spec_join_lines;
use crate::strfmt::spec_lex_le;
use crate::strfmt::spec_padded_dec;
use crate::strfmt::spec_pow10;
use vstd::arithmetic::div_mod::lemma_div_is_ordered;
use vstd::arithmetic::div_mod::lemma_fundamental_div_mod;

verus! {

/// The action result after absorbing the given event levels, in order,
/// starting from `initial`.
pub open spec fn spec_result_after(initial: ActionResult, levels: Seq<Level>) -> ActionResult
    decreases levels.len(),
{
    if levels.len() == 0 {
        initial
    } else {
        spec_result_max(
            spec_result_after(initial, levels.drop_last()),
            levels.last().spec_event_result(),
        )
    }
}

proof fn lemma_result_after_general(initial: ActionResult, levels: Seq<Level>)
    ensures
        spec_result_after(initial, levels).spec_level() >= initial.spec_level(),
        forall|i: int|
            0 <= i < levels.len() ==> spec_result_after(initial, levels).spec_level() >= (
            #[trigger] levels[i]).spec_event_result().spec_level(),
        spec_result_after(initial, levels) == initial || exists|i: int|
            0 <= i < levels.len() && (#[trigger] levels[i]).spec_event_result()
                == spec_result_after(initial, levels),
    decreases levels.len(),
{
    if levels.len() > 0 {
        lemma_result_after_general(initial, levels.drop_last());
        let prev = spec_result_after(initial, levels.drop_last());
        let after = spec_result_after(initial, levels);
        assert forall|i: int| 0 <= i < levels.len() implies after.spec_level() >= (
        #[trigger] levels[i]).spec_event_result().spec_level() by {
            if i < levels.len() - 1 {
                assert(levels.drop_last()[i] == levels[i]);
            }
        }
        if after != initial {
            if after == prev {
                if prev != initial {
                    let i = choose|i: int|
                        0 <= i < levels.drop_last().len() && (
                        #[trigger] levels.drop_last()[i]).spec_event_result() == prev;
                    assert(levels[i] == levels.drop_last()[i]);
                }
            } else {
                assert(levels[levels.len() - 1].spec_event_result() == after);
            }
        }
    }
}

/// An action's result is exactly the highest severity over its events: `OK`
/// when none was WARN or ERROR, and otherwise the severity of some event, at
/// least as high as every event's.  Each `on_event` call raises the result by
/// `spec_result_max`; this law closes the fold over a whole action.
pub proof fn lemma_result_is_max_severity(levels: Seq<Level>)
    ensures
        forall|i: int|
            0 <= i < levels.len() ==> spec_result_after(ActionResult::Okay, levels).spec_level()
                >= (#[trigger] levels[i]).spec_event_result().spec_level(),
        spec_result_after(ActionResult::Okay, levels) != ActionResult::Okay ==> exists|i: int|
            0 <= i < levels.len() && (#[trigger] levels[i]).spec_event_result()
                == spec_result_after(ActionResult::Okay, levels),
        levels.len() == 0 ==> spec_result_after(ActionResult::Okay, levels) == ActionResult::Okay,
{
    lemma_result_after_general(ActionResult::Okay, levels);
}

/// The total of a span's measured durations.
pub open spec fn spec_sum_durations(ds: Seq<u128>) -> int
    decreases ds.len(),
{
    if ds.len() == 0 {
        0
    } else {
        spec_sum_durations(ds.drop_last()) + ds.last()
    }
}

/// The stats entries after `ds.len()` open/close pairs of one span named
/// `name`: each close adds the pair's duration to `{name}_elapsed` and one to
/// `{name}_count`.
pub open spec fn spec_after_span_pairs(
    entries: Seq<(Seq<char>, u128)>,
    name: Seq<char>,
    ds: Seq<u128>,
) -> Seq<(Seq<char>, u128)>
    decreases ds.len(),
{
    if ds.len() == 0 {
        entries
    } else {
        spec_stat_add(
            spec_stat_add(
                spec_after_span_pairs(entries, name, ds.drop_last()),
                name + "_elapsed"@,
                ds.last(),
            ),
            name + "_count"@,
            1,
        )
    }
}

proof fn lemma_sum_durations_nonneg(ds: Seq<u128>)
    ensures
        spec_sum_durations(ds) >= 0,
    decreases ds.len(),
{
    if ds.len() > 0 {
        lemma_sum_durations_nonneg(ds.drop_last());
    }
}

/// A span entered and closed `k` times contributes exactly `k` to its
/// `_count` stat and the sum of its durations to its `_elapsed` stat.
pub proof fn lemma_span_pair_stats(name: Seq<char>, ds: Seq<u128>)
    requires
        ds.len() < u128::MAX,
        spec_sum_durations(ds) <= u128::MAX,
    ensures
        ds.len() > 0 ==> spec_lookup(
            spec_after_span_pairs(Seq::empty(), name, ds),
            name + "_count"@,
        ) == Some(ds.len() as u128),
        ds.len() > 0 ==> spec_lookup(
            spec_after_span_pairs(Seq::empty(), name, ds),
            name + "_elapsed"@,
        ) == Some(spec_sum_durations(ds) as u128),
        ds.len() == 0 ==> spec_after_span_pairs(Seq::empty(), name, ds) == Seq::<(
            Seq<char>,
            u128,
        )>::empty(),
    decreases ds.len(),
{
    let ck = name + "_count"@;
    let ek = name + "_elapsed"@;
    reveal_strlit("_count");
    reveal_strlit("_elapsed");
    assert("_count"@.len() == 6);
    assert("_elapsed"@.len() == 8);
    assert(ck.len() == name.len() + 6);
    assert(ek.len() == name.len() + 8);
    if ds.len() > 0 {
        lemma_sum_durations_nonneg(ds.drop_last());
        lemma_span_pair_stats(name, ds.drop_last());
        let prev = spec_after_span_pairs(Seq::empty(), name, ds.drop_last());
        let d = ds.last();
        let prev_elapsed: u128 = if ds.drop_last().len() == 0 {
            0u128
        } else {
            (spec_sum_durations(ds.drop_last()) as u128)
        };
        let prev_count: u128 = if ds.drop_last().len() == 0 {
            0u128
        } else {
            (ds.drop_last().len() as u128)
        };
        assert(spec_lookup(prev, ek) == (if ds.drop_last().len() == 0 {
            Option::<u128>::None
        } else {
            Some(prev_elapsed)
        }));
        let with_elapsed = spec_stat_add(prev, ek, d);
        lemma_lookup_upsert(prev, ek, crate::ordmap::spec_sat_add(prev_elapsed, d), ek);
        lemma_lookup_upsert(prev, ek, crate::ordmap::spec_sat_add(prev_elapsed, d), ck);
        assert(spec_lookup(with_elapsed, ck) == spec_lookup(prev, ck));
        let with_count = spec_stat_add(with_elapsed, ck, 1);
        lemma_lookup_upsert(
            with_elapsed,
            ck,
            crate::ordmap::spec_sat_add(prev_count, 1),
            ck,
        );
        lemma_lookup_upsert(
            with_elapsed,
            ck,
            crate::ordmap::spec_sat_add(prev_count, 1),
            ek,
        );
        assert(spec_after_span_pairs(Seq::empty(), name, ds) == with_count);
        assert(spec_lookup(with_count, ck) == Some(crate::ordmap::spec_sat_add(prev_count, 1)));
        assert(crate::ordmap::spec_sat_add(prev_count, 1) == ds.len() as u128);
        assert(spec_lookup(with_count, ek) == spec_lookup(with_elapsed, ek));
        assert(spec_lookup(with_elapsed, ek) == Some(crate::ordmap::spec_sat_add(prev_elapsed, d)));
        assert(crate::ordmap::spec_sat_add(prev_elapsed, d) == spec_sum_durations(ds) as u128);
    }
}

/// The trace of a failed action: its lines joined with the footer appended.
pub open spec fn spec_trace_text(logs: Seq<Seq<char>>, elapsed: int) -> Seq<char> {
    spec_join_lines(logs.push(spec_trace_footer(elapsed)))
}

proof fn lemma_join_prefix(lines: Seq<Seq<char>>)
    requires
        lines.len() >= 1,
    ensures
        spec_join_lines(lines).len() >= lines[0].len(),
        spec_join_lines(lines).take(lines[0].len() as int) == lines[0],
    decreases lines.len(),
{
    if lines.len() == 1 {
        assert(spec_join_lines(lines).take(lines[0].len() as int) =~= lines[0]);
    } else {
        lemma_join_prefix(lines.drop_last());
        assert(lines.drop_last()[0] == lines[0]);
        assert(spec_join_lines(lines).take(lines[0].len() as int) =~= spec_join_lines(
            lines.drop_last(),
        ).take(lines[0].len() as int));
    }
}

proof fn lemma_join_suffix(lines: Seq<Seq<char>>)
    requires
        lines.len() >= 1,
    ensures
        spec_join_lines(lines).len() >= lines.last().len(),
        spec_join_lines(lines).skip(
            spec_join_lines(lines).len() - lines.last().len(),
        ) == lines.last(),
{
    if lines.len() == 1 {
        assert(spec_join_lines(lines).skip(0) =~= lines[0]);
    } else {
        assert(spec_join_lines(lines).skip(
            spec_join_lines(lines).len() - lines.last().len(),
        ) =~= lines.last());
    }
}

/// A failed action's trace is framed: it begins with the `=== action begin
/// ===` marker and ends with the `=== action end ===` marker, whatever was
/// logged in between.
pub proof fn lemma_trace_is_framed(
    logs: Seq<Seq<char>>,
    action: Seq<char>,
    id: Seq<char>,
    date: int,
    thread: Seq<char>,
    elapsed: int,
)
    requires
        logs.len() >= 1,
        logs[0] == spec_begin_header(action, id, date, thread),
    ensures
        spec_trace_text(logs, elapsed).len() >= 38,
        spec_trace_text(logs, elapsed).take(20) == "=== action begin ==="@,
        spec_trace_text(logs, elapsed).skip(spec_trace_text(logs, elapsed).len() - 18)
            == "=== action end ==="@,
{
    let lines = logs.push(spec_trace_footer(elapsed));
    let t = spec_join_lines(lines);
    let header = spec_begin_header(action, id, date, thread);
    let footer = spec_trace_footer(elapsed);
    reveal_strlit("=== action begin ===");
    reveal_strlit("=== action begin ===\ntype=");
    reveal_strlit("\nid=");
    reveal_strlit("\ndate=");
    reveal_strlit("\nthread=");
    reveal_strlit("=== action end ===");
    reveal_strlit("\n=== action end ===");
    reveal_strlit("elapsed=");
    assert(lines[0] == header);
    assert(lines.last() == footer);
    lemma_join_prefix(lines);
    lemma_join_suffix(lines);
    assert(header.len() >= 26);
    assert(t.take(20) =~= "=== action begin ==="@) by {
        assert(t.take(header.len() as int) == header);
        assert(forall|i: int| 0 <= i < 20 ==> t[i] == #[trigger] header[i]);
        assert(forall|i: int|
            0 <= i < 20 ==> #[trigger] header[i] == ("=== action begin ===\ntype="@)[i]);
    }
    assert(footer.len() >= 27);
    assert(t.skip(t.len() - 18) =~= "=== action end ==="@) by {
        assert(t.skip(t.len() - footer.len()) == footer);
        assert(forall|i: int|
            0 <= i < footer.len() ==> t[t.len() - footer.len() + i] == #[trigger] footer[i]);
        assert(forall|i: int|
            0 <= i < 18 ==> #[trigger] footer[footer.len() - 18 + i] == ("\n=== action end ==="@)[1
                + i]);
    }
}

} // verus!
verus! {

/// Event lines sort by time: within an action shorter than a hundred minutes,
/// an earlier event's zero-padded `MM:SS.NNNNNNNNN ` prefix is
/// lexicographically no later than a later event's, so a trace's event lines
/// sort by their leading prefix.
pub proof fn lemma_elapsed_prefix_sorts(e1: int, e2: int)
    requires
        0 <= e1 <= e2 < 6000000000000,
    ensures
        spec_lex_le(spec_elapsed_prefix(e1), spec_elapsed_prefix(e2)),
{
    reveal_with_fuel(spec_pow10, 12);
    reveal_strlit(":");
    reveal_strlit(".");
    reveal_strlit(" ");
    let m1 = e1 / 1000000000 / 60;
    let m2 = e2 / 1000000000 / 60;
    let s1 = e1 / 1000000000 % 60;
    let s2 = e2 / 1000000000 % 60;
    let n1 = e1 % 1000000000;
    let n2 = e2 % 1000000000;
    lemma_fundamental_div_mod(e1, 1000000000);
    lemma_fundamental_div_mod(e2, 1000000000);
    lemma_fundamental_div_mod(e1 / 1000000000, 60);
    lemma_fundamental_div_mod(e2 / 1000000000, 60);
    lemma_div_is_ordered(e1, e2, 1000000000);
    lemma_div_is_ordered(e1 / 1000000000, e2 / 1000000000, 60);
    assert(0 <= m1 <= m2 < 100);
    let pm1 = spec_padded_dec(m1, 2);
    let pm2 = spec_padded_dec(m2, 2);
    let ps1 = spec_padded_dec(s1, 2);
    let ps2 = spec_padded_dec(s2, 2);
    let pn1 = spec_padded_dec(n1, 9);
    let pn2 = spec_padded_dec(n2, 9);
    lemma_padded_dec_len(m1, 2);
    lemma_padded_dec_len(m2, 2);
    lemma_padded_dec_len(s1, 2);
    lemma_padded_dec_len(s2, 2);
    lemma_padded_dec_len(n1, 9);
    lemma_padded_dec_len(n2, 9);
    let ts1 = ps1 + ("."@ + (pn1 + " "@));
    let ts2 = ps2 + ("."@ + (pn2 + " "@));
    lemma_padded_dec_lex(m1, m2, 2);
    if pm1 == pm2 {
        lemma_padded_dec_injective(m1, m2, 2);
        assert(s1 <= s2);
        lemma_padded_dec_lex(s1, s2, 2);
        if ps1 == ps2 {
            lemma_padded_dec_injective(s1, s2, 2);
            assert(n1 <= n2);
            lemma_padded_dec_lex(n1, n2, 9);
            lemma_lex_refl(" "@);
            lemma_lex_concat(pn1, pn2, " "@, " "@);
            lemma_lex_refl("."@);
            lemma_lex_concat("."@, "."@, pn1 + " "@, pn2 + " "@);
            lemma_lex_concat(ps1, ps2, "."@ + (pn1 + " "@), "."@ + (pn2 + " "@));
        } else {
            lemma_lex_concat(ps1, ps2, "."@ + (pn1 + " "@), "."@ + (pn2 + " "@));
        }
        lemma_lex_refl(":"@);
        lemma_lex_concat(":"@, ":"@, ts1, ts2);
        lemma_lex_concat(pm1, pm2, ":"@ + ts1, ":"@ + ts2);
    } else {
        lemma_lex_concat(pm1, pm2, ":"@ + ts1, ":"@ + ts2);
    }
    assert(spec_elapsed_prefix(e1) =~= pm1 + (":"@ + ts1));
    assert(spec_elapsed_prefix(e2) =~= pm2 + (":"@ + ts2));
}

} // verus!
