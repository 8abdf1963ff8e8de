use actionlog::schedule::Scheduler;
use actionlog::schedule::Trigger;
use actionlog::schedule::next_fire;
use actionlog::shutdown::Shutdown;
use actionlog::shutdown::TaskTracker;

const HOUR: i64 = 3_600_000_000_000;

#[test]
fn fixed_rate_adds_the_interval() {
    let t = Trigger::FixedRate { interval_nanos: 5 * HOUR };
    assert_eq!(next_fire(&t, 1_000), 5 * HOUR + 1_000);
}

#[test]
fn daily_fires_at_the_local_time_of_day() {
    let t = Trigger::Daily { tz_offset_nanos: 8 * HOUR, time_of_day_nanos: HOUR };
    // 2025-11-05T01:02:03Z is past 01:00 local (UTC+8): next is 17:00 UTC.
    assert_eq!(next_fire(&t, 1_762_304_523_000_000_004), 1_762_362_000_000_000_000);
    // 2025-11-05T10:00:00Z (18:00 local): still 17:00 UTC next day.
    assert_eq!(next_fire(&t, 1_762_336_800_000_000_000), 1_762_362_000_000_000_000);
    // 2025-11-04T16:30:00Z is 00:30 local: today's occurrence, 17:00 UTC.
    assert_eq!(next_fire(&t, 1_762_273_800_000_000_000), 1_762_275_600_000_000_000);
}

#[test]
fn daily_at_the_exact_time_fires_now() {
    let t = Trigger::Daily { tz_offset_nanos: 0, time_of_day_nanos: HOUR };
    let previous = 40 * 86_400_000_000_000 + HOUR;
    assert_eq!(next_fire(&t, previous), previous);
}

#[test]
fn scheduler_registration() {
    let mut s = Scheduler::new(8 * HOUR);
    s.schedule_fixed_rate("demo_job".to_string(), 5 * HOUR);
    s.schedule_daily("cleanup_old_index_job".to_string(), HOUR);
    assert_eq!(s.schedules.len(), 2);
    assert_eq!(s.schedules[0].name, "demo_job");
    assert!(matches!(s.schedules[0].trigger, Trigger::FixedRate { interval_nanos } if interval_nanos == 5 * HOUR));
    assert!(matches!(
        s.schedules[1].trigger,
        Trigger::Daily { tz_offset_nanos, time_of_day_nanos }
            if tz_offset_nanos == 8 * HOUR && time_of_day_nanos == HOUR
    ));
}

#[test]
fn shutdown_is_idempotent() {
    let mut s = Shutdown::new();
    s.subscribe();
    s.subscribe();
    assert!(!s.try_recv());
    s.signal();
    assert!(s.try_recv());
    assert!(s.try_recv());
    s.signal();
    assert!(s.try_recv());
    assert_eq!(s.subscribers, 2);
}

#[test]
fn tracker_drains_after_close() {
    let mut t = TaskTracker::new();
    assert!(t.spawn());
    assert!(t.spawn());
    t.close();
    assert!(!t.spawn());
    assert!(!t.drained());
    t.task_done();
    t.task_done();
    assert!(t.drained());
}
