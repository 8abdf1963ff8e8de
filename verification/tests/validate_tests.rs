use actionlog::events::Event;
use actionlog::events::EventResult;
use actionlog::events::truncate;
use actionlog::validate::validate_length;
use actionlog::validate::validate_not_blank;
use actionlog::validate::validate_range;
use actionlog::web::HelloRequest;

#[test]
fn length_bounds() {
    assert!(validate_length(5, Some(1), Some(10), "name").is_ok());
    let e = validate_length(11, None, Some(10), "name").unwrap_err();
    assert_eq!(e.message, "name length must not be greater than 10, value=11");
    let e = validate_length(0, Some(1), Some(10), "name").unwrap_err();
    assert_eq!(e.message, "name length must not be less than 1, value=0");
}

#[test]
fn range_bounds() {
    assert!(validate_range(5, Some(1), Some(10), "count").is_ok());
    let e = validate_range(12, Some(1), Some(10), "count").unwrap_err();
    assert_eq!(e.message, "count must not be greater than 10, value=12");
    let e = validate_range(-2, Some(1), None, "count").unwrap_err();
    assert_eq!(e.message, "count must not be less than 1, value=-2");
}

#[test]
fn blank_detection() {
    assert!(validate_not_blank("hello", "name").is_ok());
    assert!(validate_not_blank(" x ", "name").is_ok());
    let e = validate_not_blank(" \t\n", "name").unwrap_err();
    assert_eq!(e.message, "name must not be blank");
    let e = validate_not_blank("", "name").unwrap_err();
    assert_eq!(e.message, "name must not be blank");
}

#[test]
fn hello_request_length() {
    let short = HelloRequest { message: "hi".to_string() };
    assert!(short.validate().is_ok());
    let long = HelloRequest { message: "hello world".to_string() };
    let e = long.validate().unwrap_err();
    assert_eq!(e.message, "message len must less than 10");
    assert_eq!(e.code.as_deref(), Some("VALIDATION_ERROR"));
}

fn plain_event() -> Event {
    Event {
        result: EventResult::Okay,
        action: "page_view".to_string(),
        error_code: None,
        error_message: None,
        context: Vec::new(),
        stat_keys: Vec::new(),
        info: Vec::new(),
        elapsed_time: 12,
    }
}

#[test]
fn event_identity_rules() {
    assert!(plain_event().validate().is_ok());

    let mut nameless = plain_event();
    nameless.action = String::new();
    let e = nameless.validate().unwrap_err();
    assert_eq!(e.message, "action must not be empty if result is OK");

    let mut failed = plain_event();
    failed.result = EventResult::Error;
    let e = failed.validate().unwrap_err();
    assert_eq!(e.message, "errorCode must not be empty if result is WARN/ERROR");
    failed.error_code = Some(String::new());
    let e = failed.validate().unwrap_err();
    assert_eq!(e.message, "errorCode must not be empty if result is WARN/ERROR");
    failed.error_code = Some("JS_ERROR".to_string());
    assert!(failed.validate().is_ok());
}

#[test]
fn event_size_rules() {
    let mut long_key = plain_event();
    let key: String = std::iter::repeat('k').take(60).collect();
    long_key.context.push((key.clone(), "v".to_string()));
    let e = long_key.validate().unwrap_err();
    assert_eq!(e.message, format!("key is too long, key={}...(truncated)", &key[..50]));

    let mut long_value = plain_event();
    let value: String = std::iter::repeat('v').take(1001).collect();
    long_value.context.push(("k".to_string(), value.clone()));
    let e = long_value.validate().unwrap_err();
    assert_eq!(
        e.message,
        format!("value is too long, key=k, value={}...(truncated)", &value[..200])
    );

    let mut long_stat = plain_event();
    let key: String = std::iter::repeat('s').take(51).collect();
    long_stat.stat_keys.push(key.clone());
    let e = long_stat.validate().unwrap_err();
    assert_eq!(e.message, format!("key is too long, key={}...(truncated)", &key[..50]));

    let mut huge = plain_event();
    let value: String = std::iter::repeat('v').take(500_000).collect();
    huge.info.push(("a".to_string(), value.clone()));
    huge.info.push(("b".to_string(), value));
    let e = huge.validate().unwrap_err();
    assert_eq!(e.message, "event is too large, estimatedLength=1000002");
}

#[test]
fn truncation_is_by_characters() {
    assert_eq!(truncate("short", 50), "short");
    let long: String = std::iter::repeat('a').take(60).collect();
    assert_eq!(truncate(&long, 50).len(), 50);
}
