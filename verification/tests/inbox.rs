use hubflow::inbox::Inbox;
use hubflow::json::JsonValue;
use hubflow::packet::Packet;

fn make_packet(priority: u8) -> Packet {
    Packet::new(
        uuid::Uuid::new_v4().as_u128(),
        uuid::Uuid::new_v4().as_u128(),
        priority,
        60_000,
        JsonValue::object(vec![("priority".to_string(), JsonValue::uint(priority as u64))]),
    )
}

#[test]
fn push_and_pop_single_packet() {
    let mut inbox = Inbox::new();
    inbox.push(make_packet(10));
    let p = inbox.pop();
    assert_eq!(p.priority, 10);
}

#[test]
fn priority_ordering_high_first() {
    let mut inbox = Inbox::new();
    inbox.push(make_packet(5));
    inbox.push(make_packet(200));
    inbox.push(make_packet(50));
    let first = inbox.pop();
    let second = inbox.pop();
    let third = inbox.pop();
    assert_eq!(first.priority, 200);
    assert_eq!(second.priority, 50);
    assert_eq!(third.priority, 5);
}

#[test]
fn try_pop_returns_none_when_empty() {
    let mut inbox = Inbox::new();
    assert!(inbox.try_pop().is_none());
}

#[test]
fn len_reflects_inbox_size() {
    let mut inbox = Inbox::new();
    assert_eq!(inbox.len(), 0);
    inbox.push(make_packet(1));
    inbox.push(make_packet(2));
    assert_eq!(inbox.len(), 2);
    inbox.pop();
    assert_eq!(inbox.len(), 1);
    assert!(!inbox.is_empty());
}

#[test]
fn equal_priorities_are_served_in_arrival_order() {
    let mut inbox = Inbox::new();
    let a = make_packet(7);
    let b = make_packet(7);
    let c = make_packet(9);
    let (ida, idb, idc) = (a.sender_id, b.sender_id, c.sender_id);
    inbox.push(a);
    inbox.push(b);
    inbox.push(c);
    assert_eq!(inbox.pop().sender_id, idc);
    assert_eq!(inbox.pop().sender_id, ida);
    assert_eq!(inbox.pop().sender_id, idb);
    assert!(inbox.is_empty());
}
