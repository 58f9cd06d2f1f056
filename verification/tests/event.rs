use hubflow::event::{event_to_envelope, DeadLetterReason, EventTally, KnotEvent};
use hubflow::json::JsonValue;
use hubflow::packet::Packet;

fn text(id: u128) -> String {
    uuid::Uuid::from_u128(id).to_string()
}

#[test]
fn dead_letter_reasons_read_as_text() {
    assert_eq!(DeadLetterReason::TtlExpired.to_text(), "TTL expired");
    assert_eq!(DeadLetterReason::NoRoute.to_text(), "no route to target");
    assert_eq!(DeadLetterReason::MaxHopsExceeded.to_text(), "maximum hop count exceeded");
}

#[test]
fn envelopes_name_their_events() {
    let id = 5u128;
    let env = event_to_envelope(&KnotEvent::Started { knot_id: id });
    assert_eq!(env.event_type, "Started");
    assert_eq!(env.payload.get("knot_id").and_then(|v| v.as_str()), Some(text(id).as_str()));
    let p = Packet::new(1, 2, 3, 4, JsonValue::Null);
    let env = event_to_envelope(&KnotEvent::DeadLetter { packet: p, reason: DeadLetterReason::NoRoute });
    assert_eq!(env.event_type, "DeadLetter");
    assert_eq!(env.payload.get("reason").and_then(|v| v.as_str()), Some("no route to target"));
    assert!(env.payload.get("packet").is_some());
    let env = event_to_envelope(&KnotEvent::GraphRefresh);
    assert_eq!(env.event_type, "GraphRefresh");
    assert_eq!(env.payload, JsonValue::object(vec![]));
}

#[test]
fn events_describe_themselves() {
    let a = 0x11111111222233334444555555555555u128;
    let b = 0xaaaaaaaabbbbccccddddeeeeeeeeeeeeu128;
    assert_eq!(KnotEvent::Started { knot_id: a }.describe(), format!("[{}] started", text(a)));
    let p = Packet::new(a, b, 1, 1, JsonValue::Null);
    assert_eq!(
        KnotEvent::DeadLetter { packet: p.clone(), reason: DeadLetterReason::TtlExpired }.describe(),
        format!("[{}→{}] dead-letter: TTL expired", text(a), text(b))
    );
    assert_eq!(
        KnotEvent::PacketForwardedDown { target_id: b, packet: p }.describe(),
        format!("[{}] forwarded ↓ to child {}", text(a), text(b))
    );
    let changed = KnotEvent::ObjectStateChanged {
        knot_id: a,
        property: "temperature".to_string(),
        value: JsonValue::float("42.5"),
    };
    assert_eq!(changed.describe(), format!("[{}] state changed: temperature = 42.5", text(a)));
    let executed = KnotEvent::ActionExecuted { knot_id: a, engine_name: "EchoEngine".to_string(), logs: vec!["x".to_string(); 12] };
    assert_eq!(executed.describe(), format!("[{}] action executed by EchoEngine (12 log lines)", text(a)));
    assert_eq!(KnotEvent::GraphRefresh.describe(), "[graph] topology refresh requested");
}

#[test]
fn tally_counts_by_class() {
    let mut t = EventTally::new();
    assert_eq!(t.summary("idle"), None);
    let p = Packet::new(1, 2, 3, 4, JsonValue::Null);
    t.record(&KnotEvent::PacketForwardedUp { packet: p.clone() });
    t.record(&KnotEvent::PacketForwardedDown { target_id: 2, packet: p.clone() });
    t.record(&KnotEvent::DeadLetter { packet: p.clone(), reason: DeadLetterReason::NoRoute });
    t.record(&KnotEvent::ActionExecuted { knot_id: 1, engine_name: "e".to_string(), logs: vec![] });
    t.record(&KnotEvent::Started { knot_id: 1 });
    assert_eq!((t.routing, t.state, t.dead), (2, 1, 1));
    assert_eq!(t.summary("warmup").unwrap(), "  [warmup] events: 2 routing, 1 state-change, 1 dead-letter");
}

#[test]
fn dead_letter_envelope_is_exact() {
    let p = Packet::new(0, 0, 7, 1500, JsonValue::object(vec![("a".to_string(), JsonValue::uint(1))]));
    let env = event_to_envelope(&KnotEvent::DeadLetter { packet: p.clone(), reason: DeadLetterReason::TtlExpired });
    let nil = "00000000-0000-0000-0000-000000000000";
    let packet_json = JsonValue::object(vec![
        ("target_id".to_string(), JsonValue::text(nil)),
        ("sender_id".to_string(), JsonValue::text(nil)),
        ("priority".to_string(), JsonValue::uint(7)),
        ("ttl".to_string(), JsonValue::uint(1500)),
        ("payload".to_string(), JsonValue::object(vec![("a".to_string(), JsonValue::uint(1))])),
    ]);
    assert_eq!(env.event_type, "DeadLetter");
    assert_eq!(env.payload.get("packet"), Some(&packet_json));
    assert_eq!(env.payload.get("reason").and_then(|v| v.as_str()), Some("TTL expired"));
    if let JsonValue::Object(f) = &env.payload {
        assert_eq!(f.len(), 2);
    } else {
        panic!("payload must be an object");
    }
}
