//! The scheduler's triggers: the rule that computes each job's next firing
//! instant, on a fixed rate or daily at a local time of day in a fixed-offset
//! timezone.  The loop that sleeps until the instant and spawns the job runs
//! outside; every firing decision is made here.

use vstd::prelude::*;
use vstd::arithmetic::div_mod::lemma_fundamental_div_mod;
use vstd::arithmetic::div_mod::lemma_mod_multiples_vanish;
use vstd::arithmetic::div_mod::lemma_small_mod;

verus! {

/// One day in nanoseconds.
pub const DAY_NANOS: i64 = 86400000000000;

/// The rule that computes the next firing instant of a scheduled job.
/// Instants and offsets are nanoseconds since the Unix epoch, UTC.
pub enum Trigger {
    /// Fires again a fixed interval after the previous firing.
    FixedRate { interval_nanos: i64 },
    /// Fires at the next instant whose local time of day, in the scheduler's
    /// fixed-offset timezone, equals the configured time of day.
    Daily { tz_offset_nanos: i64, time_of_day_nanos: i64 },
}

/// The smallest instant at or after `previous` whose local time of day in the
/// zone offset by `tz` equals `tod`: the candidate in `previous`'s local day,
/// or the same candidate one day later when the local day's occurrence has
/// passed.
pub open spec fn spec_daily_next(previous: int, tz: int, tod: int) -> int {
    let local = previous + tz;
    let day_start = local - (local % 86400000000000);
    let cand = day_start + tod;
    if cand >= local {
        cand - tz
    } else {
        cand + 86400000000000 - tz
    }
}

/// The next firing instant of a trigger.
pub open spec fn spec_next_fire(trigger: Trigger, previous: int) -> int {
    match trigger {
        Trigger::FixedRate { interval_nanos } => previous + interval_nanos,
        Trigger::Daily { tz_offset_nanos, time_of_day_nanos } => spec_daily_next(
            previous,
            tz_offset_nanos as int,
            time_of_day_nanos as int,
        ),
    }
}

/// Whether a trigger's parameters, against a previous firing at `previous`,
/// are inside the representable range.
pub open spec fn trigger_wf(trigger: Trigger, previous: int) -> bool {
    match trigger {
        Trigger::FixedRate { interval_nanos } => {
            &&& interval_nanos > 0
            &&& previous + interval_nanos <= i64::MAX
        },
        Trigger::Daily { tz_offset_nanos, time_of_day_nanos } => {
            &&& 0 <= time_of_day_nanos < 86400000000000
            &&& -86400000000000 < tz_offset_nanos < 86400000000000
            &&& previous + tz_offset_nanos >= 0
            &&& previous + tz_offset_nanos + 2 * 86400000000000 <= i64::MAX
        },
    }
}

/// An instant inside one local day window has that window's offset as its
/// remainder.
proof fn lemma_mod_in_window(x: int, q: int)
    requires
        q * 86400000000000 <= x < (q + 1) * 86400000000000,
    ensures
        x % 86400000000000 == x - q * 86400000000000,
{
    let d = x - q * 86400000000000;
    lemma_mod_multiples_vanish(q, d, 86400000000000);
    lemma_small_mod(d as nat, 86400000000000 as nat);
}

/// Computes the next firing instant.  For a fixed rate, exactly one interval
/// after the previous firing.  For a daily trigger, the smallest instant at
/// or after the previous firing whose local time of day equals the configured
/// one: at most one day ahead, and exact on the local clock.
pub fn next_fire(trigger: &Trigger, previous: i64) -> (r: i64)
    requires
        previous >= 0,
        trigger_wf(*trigger, previous as int),
    ensures
        r == spec_next_fire(*trigger, previous as int),
        r >= previous,
        *trigger matches Trigger::Daily { tz_offset_nanos, time_of_day_nanos } ==> {
            &&& (r + tz_offset_nanos) % 86400000000000 == time_of_day_nanos
            &&& r - previous < 86400000000000
        },
{
    match trigger {
        Trigger::FixedRate { interval_nanos } => previous + *interval_nanos,
        Trigger::Daily { tz_offset_nanos, time_of_day_nanos } => {
            let local = previous + *tz_offset_nanos;
            let day_start = local - (local % DAY_NANOS);
            let cand = day_start + *time_of_day_nanos;
            proof {
                lemma_fundamental_div_mod(local as int, 86400000000000);
                lemma_mod_multiples_vanish(
                    local as int / 86400000000000,
                    time_of_day_nanos as int,
                    86400000000000,
                );
                lemma_small_mod(time_of_day_nanos as nat, 86400000000000 as nat);
                lemma_mod_multiples_vanish(
                    local as int / 86400000000000 + 1,
                    time_of_day_nanos as int,
                    86400000000000,
                );
            }
            if cand >= local {
                cand - *tz_offset_nanos
            } else {
                cand + DAY_NANOS - *tz_offset_nanos
            }
        },
    }
}

/// The daily trigger fires at the first matching instant: no instant between
/// the previous firing (inclusive) and the computed one reads the configured
/// time of day on the local clock.
pub proof fn lemma_daily_next_is_first(previous: int, tz: int, tod: int, s: int)
    requires
        0 <= tod < 86400000000000,
        previous + tz >= 0,
        previous <= s < spec_daily_next(previous, tz, tod),
    ensures
        (s + tz) % 86400000000000 != tod,
{
    let day = 86400000000000;
    let local = previous + tz;
    let q = local / day;
    let day_start = local - (local % day);
    let cand = day_start + tod;
    let ls = s + tz;
    lemma_fundamental_div_mod(local, day);
    assert(day_start == q * day);
    assert(day_start <= local < day_start + day);
    if cand >= local {
        assert(local <= ls < cand);
        lemma_mod_in_window(ls, q);
        assert(ls % day == ls - day_start);
        assert(ls - day_start < tod);
    } else {
        assert(local <= ls < cand + day);
        if ls < day_start + day {
            lemma_mod_in_window(ls, q);
            assert(ls % day == ls - day_start);
            assert(ls - day_start >= local - day_start);
            assert(local - day_start > tod);
        } else {
            assert((q + 1) * day <= ls < (q + 2) * day);
            lemma_mod_in_window(ls, q + 1);
            assert(ls % day == ls - day_start - day);
            assert(ls - day_start - day < tod);
        }
    }
}

/// One scheduled job: a short name and the rule for its firings.
pub struct Schedule {
    pub name: String,
    pub trigger: Trigger,
}

/// Owns a timezone for calendar math and the list of schedules.  The loops
/// that run the schedules ask `next_fire` for every firing instant.
pub struct Scheduler {
    pub tz_offset_nanos: i64,
    pub schedules: Vec<Schedule>,
}

impl Scheduler {
    pub fn new(tz_offset_nanos: i64) -> (r: Scheduler)
        ensures
            r.tz_offset_nanos == tz_offset_nanos,
            r.schedules@.len() == 0,
    {
        Scheduler { tz_offset_nanos, schedules: Vec::new() }
    }

    /// Registers a job that fires once per interval.
    pub fn schedule_fixed_rate(&mut self, name: String, interval_nanos: i64)
        requires
            interval_nanos > 0,
        ensures
            final(self).tz_offset_nanos == old(self).tz_offset_nanos,
            final(self).schedules@.len() == old(self).schedules@.len() + 1,
            final(self).schedules@.drop_last() == old(self).schedules@,
            final(self).schedules@.last().name == name,
            final(self).schedules@.last().trigger == (Trigger::FixedRate { interval_nanos }),
    {
        self.schedules.push(Schedule { name, trigger: Trigger::FixedRate { interval_nanos } });
    }

    /// Registers a job that fires daily at a local time of day in the
    /// scheduler's timezone.
    pub fn schedule_daily(&mut self, name: String, time_of_day_nanos: i64)
        requires
            0 <= time_of_day_nanos < 86400000000000,
        ensures
            final(self).tz_offset_nanos == old(self).tz_offset_nanos,
            final(self).schedules@.len() == old(self).schedules@.len() + 1,
            final(self).schedules@.drop_last() == old(self).schedules@,
            final(self).schedules@.last().name == name,
            final(self).schedules@.last().trigger == (Trigger::Daily {
                tz_offset_nanos: old(self).tz_offset_nanos,
                time_of_day_nanos,
            }),
    {
        let trigger = Trigger::Daily { tz_offset_nanos: self.tz_offset_nanos, time_of_day_nanos };
        self.schedules.push(Schedule { name, trigger });
    }
}

/// The facts a job receives about its firing.
pub struct JobContext {
    pub name: String,
    pub scheduled_time_nanos: i64,
}

} // verus!
