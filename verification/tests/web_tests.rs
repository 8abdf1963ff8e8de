use actionlog::action::ActionLog;
use actionlog::action::Level;
use actionlog::action::LogField;
use actionlog::appender::ActionLogAppender;
use actionlog::appender::ConsoleAppender;
use actionlog::asset::find_asset_path;
use actionlog::shell::shell_outcome;
use actionlog::sse::EventSource;
use actionlog::web::HttpMethod;
use actionlog::web::HttpRequest;
use actionlog::web::HttpServerConfig;
use actionlog::web::is_health_check;
use actionlog::web::parse_usize;
use actionlog::web::should_log_header;

#[test]
fn request_building() {
    let mut r = HttpRequest::new(HttpMethod::POST, "http://svc/api".to_string());
    assert!(r.body.is_none());
    assert!(r.headers.is_empty());
    r.body("{}".to_string(), "application/json".to_string());
    assert_eq!(r.body.as_deref(), Some("{}"));
    assert_eq!(r.headers, vec![("content-type".to_string(), "application/json".to_string())]);
    assert_eq!(HttpMethod::DELETE.name(), "DELETE");
}

#[test]
fn server_defaults() {
    let c = HttpServerConfig::default();
    assert_eq!(c.bind_address, "0.0.0.0:8080");
    assert_eq!(c.max_forwarded_ips, 2);
}

#[test]
fn health_check_bypass() {
    assert!(is_health_check("/health-check"));
    assert!(!is_health_check("/hello"));
    assert!(should_log_header("accept"));
    assert!(!should_log_header("cookie"));
}

#[test]
fn content_length_parsing() {
    assert_eq!(parse_usize("0"), Some(0));
    assert_eq!(parse_usize("1024"), Some(1024));
    assert_eq!(parse_usize(""), None);
    assert_eq!(parse_usize("12a"), None);
    assert_eq!(parse_usize("-5"), None);
    assert_eq!(parse_usize("99999999999999999999999999"), None);
}

#[test]
fn asset_path_replaces_the_file_name() {
    assert_eq!(find_asset_path("/opt/app/bin/service", "assets/conf.json"), "/opt/app/bin/assets/conf.json");
    assert_eq!(find_asset_path("service", "conf.json"), "conf.json");
}

#[test]
fn shell_outcomes() {
    assert_eq!(shell_outcome(true, Some(0), "out".to_string()).unwrap(), "out");
    let e = shell_outcome(false, Some(2), String::new()).unwrap_err();
    assert_eq!(e.message, "command failed, status=2");
    let e = shell_outcome(false, None, String::new()).unwrap_err();
    assert_eq!(e.message, "command failed, status=-1");
}

#[test]
fn sse_event_assembly() {
    let mut parser = EventSource::new();
    let stream = b"id: 7\nevent: greet\ndata: hello\n\ndata: again\n";
    let mut events = Vec::new();
    for byte in stream {
        if let Some(ev) = parser.process_byte(*byte) {
            events.push(ev);
        }
    }
    assert_eq!(events.len(), 2);
    assert_eq!(events[0].id.as_deref(), Some("7"));
    assert_eq!(events[0].event_type.as_deref(), Some("greet"));
    assert_eq!(events[0].data, "hello");
    assert!(events[1].id.is_none());
    assert!(events[1].event_type.is_none());
    assert_eq!(events[1].data, "again");
    assert_eq!(parser.read_entries, 2);
}

#[test]
fn sse_ignores_unknown_fields() {
    let mut parser = EventSource::new();
    let stream = b"retry: 100\nnonsense\ndata: x\n";
    let mut events = Vec::new();
    for byte in stream {
        if let Some(ev) = parser.process_byte(*byte) {
            events.push(ev);
        }
    }
    assert_eq!(events.len(), 1);
    assert_eq!(events[0].data, "x");
}

#[test]
fn console_summary_line() {
    let log = ActionLog::new(
        "0011223344556677".to_string(),
        "http".to_string(),
        Some("aabbccddeeff0011".to_string()),
        1762304523000000004,
        "ThreadId(1)",
    );
    let record = log.close(1_000_000_004);
    let line = ConsoleAppender::format_summary(&record);
    assert_eq!(
        line,
        "2025-11-05T01:02:03.000000004Z | OK | http | id=0011223344556677 | elapsed=1.000000004s | ref_id=aabbccddeeff0011"
    );
}

#[test]
fn console_summary_includes_context() {
    let mut log = ActionLog::new(
        "0011223344556677".to_string(),
        "job".to_string(),
        None,
        0,
        "ThreadId(1)",
    );
    let ctx = vec![LogField::rendered("message", "context"), LogField::text("job", "cleanup")];
    log.on_event(Level::Debug, "demo", 1, &ctx, 10);
    let record = log.close(0);
    let line = ConsoleAppender::format_summary(&record);
    assert_eq!(
        line,
        "1970-01-01T00:00:00.000000000Z | OK | job | id=0011223344556677 | elapsed=0.000000000s | job=cleanup"
    );
}

#[test]
fn console_appender_accepts_records() {
    let log = ActionLog::new(
        "0011223344556677".to_string(),
        "demo".to_string(),
        None,
        0,
        "ThreadId(1)",
    );
    let mut failing = ActionLog::new(
        "8899aabbccddeeff".to_string(),
        "demo".to_string(),
        None,
        0,
        "ThreadId(1)",
    );
    let fields = vec![LogField::rendered("message", "boom"), LogField::text("error_code", "E1")];
    failing.on_event(Level::Error, "demo", 1, &fields, 10);
    let appender = ConsoleAppender;
    appender.append(log.close(1));
    appender.append(failing.close(2));
}
