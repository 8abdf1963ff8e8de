use actionlog::elastic::IndexState;
use actionlog::elastic::RetentionAction;
use actionlog::elastic::bulk_index_body;
use actionlog::elastic::index_retention;
use actionlog::elastic::require_status_ok;
use actionlog::time::Date;
use actionlog::web::HttpMethod;

#[test]
fn created_date() {
    assert_eq!(
        actionlog::elastic::created_date("action-2025.11.05"),
        Some(Date { year: 2025, month: 11, day: 5 })
    );
    assert_eq!(
        actionlog::elastic::created_date(".ds-.edr-workflow-insights-default-2025.04.24-000001"),
        None
    );
    assert_eq!(actionlog::elastic::created_date(".kibana-2025.04.25"), None);
}

#[test]
fn index() {
    assert_eq!(
        actionlog::elastic::index(&Date { year: 2025, month: 11, day: 5 }),
        "stat-2025.11.05"
    )
}

#[test]
fn daily_index_names() {
    let d = Date { year: 2025, month: 11, day: 5 };
    assert_eq!(actionlog::elastic::action_index(&d), "action-2025.11.05");
    assert_eq!(actionlog::elastic::trace_index(&d), "trace-2025.11.05");
}

#[test]
fn created_date_rejects_bad_dates() {
    assert_eq!(actionlog::elastic::created_date("action-2025.13.05"), None);
    assert_eq!(actionlog::elastic::created_date("action-2025.02.30"), None);
    assert_eq!(actionlog::elastic::created_date("action-2025.11.5"), None);
    assert_eq!(actionlog::elastic::created_date("x-2025.11.05"), None);
    assert_eq!(actionlog::elastic::created_date("a-2024.02.29"), None);
    assert_eq!(
        actionlog::elastic::created_date("ab-2024.02.29"),
        Some(Date { year: 2024, month: 2, day: 29 })
    );
}

#[test]
fn retention_policy() {
    assert!(matches!(index_retention(31, &IndexState::Open), RetentionAction::Delete));
    assert!(matches!(index_retention(31, &IndexState::Close), RetentionAction::Delete));
    assert!(matches!(index_retention(8, &IndexState::Open), RetentionAction::Close));
    assert!(matches!(index_retention(8, &IndexState::Close), RetentionAction::Keep));
    assert!(matches!(index_retention(7, &IndexState::Open), RetentionAction::Keep));
    assert!(matches!(index_retention(-3, &IndexState::Open), RetentionAction::Keep));
}

#[test]
fn bulk_body_frames_each_document() {
    let docs = vec![
        ("id1".to_string(), "{\"a\":1}".to_string()),
        ("id2".to_string(), "{\"b\":2}".to_string()),
    ];
    let body = bulk_index_body("stat-2025.11.05", &docs);
    assert_eq!(
        body,
        "{\"index\":{\"_index\":\"stat-2025.11.05\",\"_id\":\"id1\"}}\n{\"a\":1}\n{\"index\":{\"_index\":\"stat-2025.11.05\",\"_id\":\"id2\"}}\n{\"b\":2}\n"
    );
}

#[test]
fn cluster_requests() {
    let r = actionlog::elastic::put_index_template_request("http://es:9200", "action", "{}".to_string());
    assert!(matches!(r.method, HttpMethod::PUT));
    assert_eq!(r.url, "http://es:9200/_index_template/action");
    assert_eq!(r.body.as_deref(), Some("{}"));
    assert_eq!(r.headers, vec![("content-type".to_string(), "application/json".to_string())]);

    let r = actionlog::elastic::bulk_index_request("http://es:9200", "payload".to_string());
    assert!(matches!(r.method, HttpMethod::POST));
    assert_eq!(r.url, "http://es:9200/_bulk");

    let r = actionlog::elastic::cluster_state_request("http://es:9200");
    assert_eq!(r.url, "http://es:9200/_cluster/state");

    let r = actionlog::elastic::close_index_request("http://es:9200", "action-2025.01.01");
    assert_eq!(r.url, "http://es:9200/action-2025.01.01/_close");

    let r = actionlog::elastic::delete_index_request("http://es:9200", "action-2025.01.01");
    assert!(matches!(r.method, HttpMethod::DELETE));
    assert_eq!(r.url, "http://es:9200/action-2025.01.01");
}

#[test]
fn status_checks() {
    assert!(require_status_ok(200, "failed".to_string()).is_ok());
    let e = require_status_ok(404, "failed to bulk index, index=x".to_string()).unwrap_err();
    assert_eq!(e.message, "failed to bulk index, index=x");
}

#[test]
fn archive_paths() {
    let d = Date { year: 2025, month: 11, day: 5 };
    assert_eq!(
        actionlog::archive::local_file_path("/var/log/export", "action", &d, "abc123"),
        "/var/log/export/action/2025/action-2025-11-05-abc123.ndjson"
    );
    assert_eq!(
        actionlog::archive::remote_path("gs://archive", "event", &d, "abc123"),
        "gs://archive/event/2025/event-2025-11-05-abc123.parquet"
    );
}
