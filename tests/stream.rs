use redis::Value;
use redis_cmd::stream::{claim_oldest_request, needs_group_creation, read_group_request};

#[test]
fn read_request_asks_for_one_new_entry() {
    let r = read_group_request("rrrrr", "123", "32");
    assert_eq!(r.key, "rrrrr");
    assert_eq!(r.group, "123");
    assert_eq!(r.consumer, "32");
    assert_eq!(r.start_id, ">");
    assert_eq!(r.count, 1);
    assert_eq!(r.block_ms, 3000);
}

#[test]
fn claim_on_fresh_group_has_nothing_to_take() {
    assert!(claim_oldest_request(&Value::Bulk(vec![])).unwrap().is_none());
    assert!(claim_oldest_request(&Value::Nil).unwrap().is_none());
}

#[test]
fn claim_takes_oldest_pending_entry() {
    let pending = Value::Bulk(vec![Value::Bulk(vec![
        Value::Data(b"1700000000000-0".to_vec()),
        Value::Data(b"32".to_vec()),
        Value::Int(12),
        Value::Int(1),
    ])]);
    let c = claim_oldest_request(&pending).unwrap().unwrap();
    assert_eq!(c.ids, vec!["1700000000000-0".to_string()]);
    assert_eq!(c.idle_ms, 60000);
    assert_eq!(c.time_ms, 60000);
}

#[test]
fn claim_fails_on_unreadable_pending_reply() {
    assert!(claim_oldest_request(&Value::Int(0)).is_err());
    assert!(claim_oldest_request(&Value::Okay).is_err());
}

fn group_record(name: &str) -> Value {
    Value::Bulk(vec![
        Value::Data(b"name".to_vec()),
        Value::Data(name.as_bytes().to_vec()),
        Value::Data(b"consumers".to_vec()),
        Value::Int(0),
    ])
}

#[test]
fn ensure_group_creates_only_when_unlisted() {
    assert_eq!(needs_group_creation(&Value::Bulk(vec![]), "1234").unwrap(), true);
    assert_eq!(needs_group_creation(&Value::Nil, "1234").unwrap(), true);
    let after = Value::Bulk(vec![group_record("1234")]);
    assert_eq!(needs_group_creation(&after, "1234").unwrap(), false);
    assert_eq!(needs_group_creation(&after, "zq-fresh-91").unwrap(), true);
}

#[test]
fn ensure_group_fails_on_unreadable_listing() {
    assert!(needs_group_creation(&Value::Int(2), "1234").is_err());
}
