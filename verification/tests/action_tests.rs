use actionlog::action::ActionLog;
use actionlog::action::ActionResult;
use actionlog::action::Level;
use actionlog::action::LogField;
use actionlog::action::truncate_message;
use actionlog::router::ActionVisitor;
use actionlog::router::ExceptionEvent;
use actionlog::router::TaskContext;
use actionlog::router::current_action_id;
use actionlog::router::format_action_id;
use actionlog::router::is_action_span;
use actionlog::router::log_exception;
use actionlog::exception::Exception;
use actionlog::exception::Severity;

const DATE: i64 = 1762304523000000004;

fn fresh(action: &str, ref_id: Option<String>) -> ActionLog {
    ActionLog::new("0011223344556677".to_string(), action.to_string(), ref_id, DATE, "ThreadId(1)")
}

#[test]
fn clean_single_action() {
    let log = fresh("test", None);
    let record = log.close(5);
    assert_eq!(record.action, "test");
    assert!(matches!(record.result, ActionResult::Okay));
    assert!(record.context_entries().is_empty());
    assert_eq!(record.stat("elapsed"), Some(5));
    assert!(record.trace.is_none());
}

#[test]
fn warn_escalation() {
    let mut log = fresh("x", None);
    let fields = vec![LogField::rendered("message", "boom"), LogField::text("error_code", "E1")];
    log.on_event(Level::Warn, "demo", 10, &fields, 1000);
    let record = log.close(2000);
    assert!(matches!(record.result, ActionResult::Warn));
    assert_eq!(record.error_code.as_deref(), Some("E1"));
    assert_eq!(record.error_message.as_deref(), Some("boom"));
    let trace = record.trace.expect("failed action must carry a trace");
    assert!(trace.contains("[E1]"));
    assert!(trace.contains("boom"));
    assert!(trace.starts_with("=== action begin ==="));
    assert!(trace.ends_with("=== action end ==="));
}

#[test]
fn context_and_stats_events() {
    let mut log = fresh("y", None);
    let ctx = vec![LogField::rendered("message", "context"), LogField::text("k", "v")];
    log.on_event(Level::Debug, "demo", 1, &ctx, 10);
    let s1 = vec![LogField::rendered("message", "stats"), LogField::number("n", 3)];
    log.on_event(Level::Debug, "demo", 2, &s1, 20);
    let s2 = vec![LogField::rendered("message", "stats"), LogField::number("n", 4)];
    log.on_event(Level::Debug, "demo", 3, &s2, 30);
    let record = log.close(99);
    assert!(matches!(record.result, ActionResult::Okay));
    assert_eq!(record.context_entries(), vec![("k".to_string(), "v".to_string())]);
    let stats = record.stats_entries();
    assert_eq!(stats, vec![("n".to_string(), 7u128), ("elapsed".to_string(), 99u128)]);
}

#[test]
fn context_reinsert_keeps_position() {
    let mut log = fresh("y", None);
    let a = vec![LogField::rendered("message", "context"), LogField::text("a", "1")];
    log.on_event(Level::Debug, "demo", 1, &a, 10);
    let b = vec![LogField::rendered("message", "context"), LogField::text("b", "2")];
    log.on_event(Level::Debug, "demo", 2, &b, 20);
    let again = vec![LogField::rendered("message", "context"), LogField::text("a", "3")];
    log.on_event(Level::Debug, "demo", 3, &again, 30);
    let record = log.close(99);
    assert_eq!(
        record.context_entries(),
        vec![("a".to_string(), "3".to_string()), ("b".to_string(), "2".to_string())]
    );
}

#[test]
fn trace_events_are_dropped() {
    let mut log = fresh("z", None);
    let before = log.logs.len();
    let fields = vec![LogField::rendered("message", "invisible")];
    log.on_event(Level::Trace, "demo", 1, &fields, 10);
    assert_eq!(log.logs.len(), before);
    log.on_event(Level::Debug, "demo", 1, &fields, 10);
    assert_eq!(log.logs.len(), before + 1);
}

#[test]
fn event_line_format() {
    let mut log = fresh("z", None);
    let fields = vec![LogField::rendered("message", "hello")];
    log.on_event(Level::Info, "my_mod", 42, &fields, 61_000_000_004);
    let line = log.logs.last().unwrap().clone();
    assert_eq!(line, "01:01.000000004 INFO my_mod:42 hello ");
}

#[test]
fn result_is_monotone() {
    let mut log = fresh("m", None);
    let err = vec![LogField::rendered("message", "first"), LogField::text("error_code", "E2")];
    log.on_event(Level::Error, "demo", 1, &err, 10);
    let warn = vec![LogField::rendered("message", "later"), LogField::text("error_code", "W1")];
    log.on_event(Level::Warn, "demo", 2, &warn, 20);
    let record = log.close(50);
    assert!(matches!(record.result, ActionResult::Error));
    assert_eq!(record.error_code.as_deref(), Some("E2"));
    assert_eq!(record.error_message.as_deref(), Some("first"));
}

#[test]
fn long_messages_are_truncated() {
    let long: String = std::iter::repeat('x').take(250).collect();
    assert_eq!(truncate_message(&long).len(), 200);
    let mut log = fresh("t", None);
    let fields = vec![LogField::rendered("message", &long), LogField::text("error_code", "E9")];
    log.on_event(Level::Error, "demo", 1, &fields, 10);
    let record = log.close(20);
    let captured = record.error_message.unwrap();
    assert_eq!(captured.len(), 200);
    assert_eq!(captured, long[..200].to_string());
}

#[test]
fn span_transitions() {
    let mut log = fresh("s", None);
    let fields = vec![LogField::text("sql", "select 1")];
    log.on_span_open("db", &fields);
    assert_eq!(log.logs.last().unwrap(), "[span:db] sql=select 1 >>>");
    log.on_span_record("db", &vec![LogField::text("rows", "3")]);
    assert_eq!(log.logs.last().unwrap(), "[span:db] rows=3 ");
    log.on_span_close("db", 1_500_000_000);
    assert_eq!(log.logs.last().unwrap(), "[span:db] elapsed=1.500000000s <<<");
    log.on_span_open("db", &Vec::new());
    log.on_span_close("db", 500_000_000);
    let record = log.close(9);
    let stats = record.stats_entries();
    assert_eq!(
        stats,
        vec![
            ("db_elapsed".to_string(), 2_000_000_000u128),
            ("db_count".to_string(), 2u128),
            ("elapsed".to_string(), 9u128)
        ]
    );
}

#[test]
fn ref_id_line_in_header() {
    let log = fresh("linked", Some("aabbccddeeff0011".to_string()));
    assert_eq!(log.logs.len(), 2);
    assert_eq!(log.logs[1], "ref_id=aabbccddeeff0011");
    assert!(log.logs[0].starts_with("=== action begin ===\ntype=linked\nid=0011223344556677\ndate=2025-11-05T01:02:03.000000004Z\nthread=ThreadId(1)"));
}

#[test]
fn action_visitor_collects_identity() {
    let mut v = ActionVisitor::new();
    v.record_str("action", "http");
    v.record_str("action_id", "0123456789abcdef");
    v.record_str("ref_id", "fedcba9876543210");
    v.record_str("other", "ignored");
    let log = v.action_log(DATE, "ThreadId(7)").expect("complete identity opens a collector");
    assert_eq!(log.action, "http");
    assert_eq!(log.id, "0123456789abcdef");
    assert_eq!(log.ref_id.as_deref(), Some("fedcba9876543210"));
}

#[test]
fn action_visitor_needs_action_and_id() {
    let mut v = ActionVisitor::new();
    v.record_str("action", "http");
    assert!(v.action_log(DATE, "ThreadId(7)").is_none());
}

#[test]
fn action_span_name() {
    assert!(is_action_span("action"));
    assert!(!is_action_span("db"));
}

#[test]
fn action_ids_are_sixteen_hex_chars() {
    assert_eq!(format_action_id(0), "0000000000000000");
    assert_eq!(format_action_id(0xdeadbeef), "00000000deadbeef");
    assert_eq!(format_action_id(u64::MAX), "ffffffffffffffff");
}

#[test]
fn current_action_id_reads_the_slot() {
    let inside = TaskContext { action_id: Some("0123456789abcdef".to_string()) };
    assert_eq!(current_action_id(&inside).as_deref(), Some("0123456789abcdef"));
    let outside = TaskContext { action_id: None };
    assert!(current_action_id(&outside).is_none());
}

#[test]
fn exception_event_fields() {
    let e = Exception {
        severity: Severity::Warn,
        code: Some("E001".to_string()),
        message: "key too short".to_string(),
        location: Some("web.rs:3:9".to_string()),
        source: None,
    };
    let ExceptionEvent { level, fields } = log_exception(&e);
    assert!(matches!(level, Level::Warn));
    assert_eq!(fields.len(), 3);
    assert_eq!(fields[0].name, "message");
    assert_eq!(fields[1].name, "error_code");
    assert_eq!(fields[2].name, "backtrace");
}
