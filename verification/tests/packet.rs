use hubflow::json::JsonValue;
use hubflow::packet::Packet;

fn fresh() -> u128 {
    uuid::Uuid::new_v4().as_u128()
}

#[test]
fn fresh_packet_is_not_expired() {
    let p = Packet::new(fresh(), fresh(), 128, 60_000, JsonValue::object(vec![]));
    assert!(!p.is_expired());
}

#[test]
fn packet_with_zero_ttl_is_expired() {
    let p = Packet::new(fresh(), fresh(), 0, 0, JsonValue::object(vec![]));
    while p.age_nanos() == 0 {}
    assert!(p.is_expired());
}

#[test]
fn remaining_ttl_clamps_to_zero_when_expired() {
    let p = Packet::new(fresh(), fresh(), 0, 0, JsonValue::Null);
    while p.age_nanos() == 0 {}
    assert_eq!(p.remaining_ttl(), 0);
}

#[test]
fn expiry_is_strictly_after_the_ttl() {
    let p = Packet::new(fresh(), fresh(), 1, 5, JsonValue::Null);
    assert!(!p.expired_after(5_000_000));
    assert!(p.expired_after(5_000_001));
    assert_eq!(p.remaining_after(1_000_000), 4_000_000);
    assert_eq!(p.remaining_after(9_000_000), 0);
}

#[test]
fn packet_json_carries_the_fields() {
    let sender = fresh();
    let target = fresh();
    let payload = JsonValue::object(vec![("action".to_string(), JsonValue::text("ping"))]);
    let p = Packet::new(sender, target, 200, 5000, payload.clone());
    let v = p.to_json();
    assert_eq!(v.get("sender_id").and_then(|x| x.as_str()), Some(uuid::Uuid::from_u128(sender).to_string().as_str()));
    assert_eq!(v.get("target_id").and_then(|x| x.as_str()), Some(uuid::Uuid::from_u128(target).to_string().as_str()));
    assert_eq!(v.get("priority"), Some(&JsonValue::uint(200)));
    assert_eq!(v.get("ttl"), Some(&JsonValue::uint(5000)));
    assert_eq!(v.get("payload"), Some(&payload));
}
