use actionlog::exception::BAD_REQUEST;
use actionlog::exception::Exception;
use actionlog::exception::FORBIDDEN;
use actionlog::exception::Severity;
use actionlog::exception::VALIDATION_ERROR;
use actionlog::exception::source;

#[test]
fn error_codes() {
    assert_eq!(VALIDATION_ERROR, "VALIDATION_ERROR");
    assert_eq!(BAD_REQUEST, "BAD_REQUEST");
    assert_eq!(FORBIDDEN, "FORBIDDEN");
}

#[test]
fn chain_rendering() {
    let e = Exception {
        severity: Severity::Warn,
        code: Some("E001".to_string()),
        message: "outer failed".to_string(),
        location: Some("web.rs:12:5".to_string()),
        source: Some(Box::new(Exception {
            severity: Severity::Error,
            code: None,
            message: "inner cause".to_string(),
            location: None,
            source: None,
        })),
    };
    assert_eq!(
        e.describe(),
        "0: WARN [E001] outer failed at web.rs:12:5\n1: ERROR inner cause"
    );
}

#[test]
fn single_link_rendering() {
    let e = Exception::error("io failed".to_string());
    assert_eq!(e.describe(), "0: ERROR io failed");
}

#[test]
fn validation_error_shape() {
    let e = Exception::validation_error("name must not be blank".to_string());
    assert!(matches!(e.severity, Severity::Warn));
    assert_eq!(e.code.as_deref(), Some("VALIDATION_ERROR"));
    assert!(e.source.is_none());
}

#[test]
fn source_chain_from_messages() {
    let chain = source(vec!["outer".to_string(), "middle".to_string(), "inner".to_string()]);
    let outer = chain.expect("non-empty messages build a chain");
    assert_eq!(outer.message, "outer");
    assert!(matches!(outer.severity, Severity::Error));
    let middle = outer.source.expect("second link");
    assert_eq!(middle.message, "middle");
    let inner = middle.source.expect("third link");
    assert_eq!(inner.message, "inner");
    assert!(inner.source.is_none());
    assert!(source(Vec::new()).is_none());
}

#[test]
fn severity_names() {
    assert_eq!(Severity::Warn.name(), "WARN");
    assert_eq!(Severity::Error.name(), "ERROR");
}
