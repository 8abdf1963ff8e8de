use actionlog::kafka::ConsumerConfig;
use actionlog::kafka::Message;
use actionlog::kafka::build_key_chains;
use actionlog::kafka::group_by_topic;
use actionlog::kafka::message_ref_id;
use actionlog::kafka::oldest_timestamp;
use actionlog::kafka::poll_complete;
use actionlog::kafka::remaining_wait_nanos;

fn msg(key: Option<&str>, payload: &str) -> Message {
    Message {
        key: key.map(|k| k.to_string()),
        payload: payload.to_string(),
        headers: Vec::new(),
        timestamp_millis: None,
    }
}

#[test]
fn per_key_ordering() {
    let batch = vec![
        msg(Some("A"), "1"),
        msg(Some("A"), "2"),
        msg(Some("B"), "1"),
        msg(None, "1"),
        msg(Some("A"), "3"),
    ];
    let plan = build_key_chains(batch);
    assert_eq!(plan.unkeyed.len(), 1);
    assert_eq!(plan.unkeyed[0].payload, "1");
    assert_eq!(plan.chains.len(), 2);
    let a = plan.chains.iter().find(|c| c.0 == "A").expect("chain for key A");
    let payloads: Vec<&str> = a.1.iter().map(|m| m.payload.as_str()).collect();
    assert_eq!(payloads, vec!["1", "2", "3"]);
    let b = plan.chains.iter().find(|c| c.0 == "B").expect("chain for key B");
    assert_eq!(b.1.len(), 1);
    assert_eq!(b.1[0].payload, "1");
}

#[test]
fn one_group_per_topic() {
    let batch = vec![
        ("orders".to_string(), msg(None, "o1")),
        ("events".to_string(), msg(None, "e1")),
        ("orders".to_string(), msg(None, "o2")),
    ];
    let groups = group_by_topic(batch);
    assert_eq!(groups.len(), 2);
    let orders = groups.iter().find(|g| g.0 == "orders").unwrap();
    let payloads: Vec<&str> = orders.1.iter().map(|m| m.payload.as_str()).collect();
    assert_eq!(payloads, vec!["o1", "o2"]);
    let events = groups.iter().find(|g| g.0 == "events").unwrap();
    assert_eq!(events.1.len(), 1);
}

#[test]
fn poll_budget() {
    let config = ConsumerConfig::default();
    assert_eq!(config.poll_max_wait_nanos, 1_000_000_000);
    assert_eq!(config.poll_max_records, 1000);
    assert!(!poll_complete(&config, 999_999_999, 999));
    assert!(poll_complete(&config, 1_000_000_000, 0));
    assert!(poll_complete(&config, 0, 1000));
    assert_eq!(remaining_wait_nanos(&config, 400_000_000), 600_000_000);
    assert_eq!(remaining_wait_nanos(&config, 2_000_000_000), 0);
}

#[test]
fn ref_id_header_lookup() {
    let mut m = msg(None, "p");
    assert!(message_ref_id(&m).is_none());
    m.headers.push(("client".to_string(), "web".to_string()));
    m.headers.push(("ref_id".to_string(), "0123456789abcdef".to_string()));
    m.headers.push(("ref_id".to_string(), "ffffffffffffffff".to_string()));
    assert_eq!(message_ref_id(&m).as_deref(), Some("0123456789abcdef"));
}

#[test]
fn oldest_timestamp_is_minimum() {
    let mut batch = vec![msg(None, "a"), msg(None, "b"), msg(None, "c")];
    assert!(oldest_timestamp(&batch).is_none());
    batch[0].timestamp_millis = Some(500);
    batch[2].timestamp_millis = Some(300);
    assert_eq!(oldest_timestamp(&batch), Some(300));
}
