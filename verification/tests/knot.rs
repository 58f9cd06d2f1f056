use hubflow::action::EchoEngine;
use hubflow::cell::CellMeta;
use hubflow::class::{ClassDefinition, DataType, PropertySchema};
use hubflow::event::{DeadLetterReason, KnotEvent};
use hubflow::json::JsonValue;
use hubflow::knot::{Knot, KnotRole, Route, apply_sync_effects};
use hubflow::object::KnotEffect;
use hubflow::packet::Packet;
use hubflow::registry::KnotRegistry;
use hubflow::state::StateKey;

fn fresh() -> u128 {
    uuid::Uuid::new_v4().as_u128()
}

fn hub(local_id: u64) -> Knot {
    Knot::new(local_id, CellMeta::with_description("TestHub", "hub for tests"), KnotRole::Hub, 0, None, false)
}

fn sensor_class() -> ClassDefinition {
    ClassDefinition::new("Sensor")
        .with_property(
            PropertySchema::new("temperature", DataType::Number)
                .with_default(JsonValue::float("20.0"))
                .with_unit("°C"),
        )
        .with_property(PropertySchema::new("active", DataType::Boolean).with_default(JsonValue::Bool(true)))
}

fn obj(pairs: Vec<(&str, JsonValue)>) -> JsonValue {
    JsonValue::object(pairs.into_iter().map(|(k, v)| (k.to_string(), v)).collect())
}

fn packet_to(target_id: u128, sender_id: u128, priority: u8) -> Packet {
    Packet::new(sender_id, target_id, priority, 30_000, obj(vec![("test", JsonValue::Bool(true))]))
}

fn expired_packet_to(target_id: u128) -> Packet {
    let p = Packet::new(fresh(), target_id, 128, 0, JsonValue::Null);
    while p.age_nanos() == 0 {}
    p
}

fn pushed_self(effects: &[KnotEffect]) -> Vec<&Packet> {
    effects
        .iter()
        .filter_map(|e| match e {
            KnotEffect::PushSelf { packet } => Some(packet),
            _ => None,
        })
        .collect()
}

#[test]
fn new_knots_have_unique_uuids() {
    let a = hub(1);
    let b = hub(2);
    assert_ne!(a.id(), b.id());
}

#[test]
fn knot_preserves_local_id_and_role() {
    let k = Knot::new(42, CellMeta::new("X"), KnotRole::Action, 2, None, false);
    assert_eq!(k.local_id(), 42);
    assert_eq!(k.role(), &KnotRole::Action);
    assert_eq!(k.level(), 2);
    assert!(k.parent_id().is_none());
}

#[test]
fn knot_from_parts_preserves_uuid() {
    let id = fresh();
    let k = Knot::from_parts(id, 7, CellMeta::new("Restored"), KnotRole::Object, 1, None, false);
    assert_eq!(k.id(), id);
}

#[test]
fn new_object_initialises_class_defaults() {
    let class = sensor_class();
    let o = Knot::new_object(1, CellMeta::new("Obj"), Some(&class), 1, None, false);
    assert_eq!(o.class_id(), Some(class.id));
    assert!(o.shared_state().is_some());
}

#[test]
fn new_class_stores_definition() {
    let class = sensor_class();
    let class_id = class.id;
    let ck = Knot::new_class(1, CellMeta::new("SensorClass"), class, 1, None, false);
    assert_eq!(ck.class_id(), Some(class_id));
    assert_eq!(ck.variant_name(), "Class");
}

#[test]
fn new_action_has_correct_variant() {
    let ak = Knot::new_action(1, CellMeta::new("Act"), Box::new(EchoEngine), 1, None, false);
    assert_eq!(ak.variant_name(), "Action");
}

#[test]
fn attach_and_detach_child() {
    let mut parent = hub(0);
    let child = Knot::new(1, CellMeta::new("Child"), KnotRole::Action, 1, Some(parent.id()), false);
    let child_id = child.id();
    parent.attach_child(child.id());
    let detached = parent.detach_child(&child_id);
    assert!(detached);
    assert!(!parent.has_child(child_id));
}

#[test]
fn handle_packet_local_delivery() {
    let mut knot = hub(1);
    let effects = knot.handle_packet(packet_to(knot.id(), fresh(), 128), None);
    assert!(matches!(effects[0], KnotEffect::Emit(KnotEvent::PacketReceived { .. })));
}

#[test]
fn handle_packet_ttl_expired_emits_dead_letter() {
    let mut knot = hub(1);
    let effects = knot.handle_packet(expired_packet_to(knot.id()), None);
    assert!(matches!(
        effects[0],
        KnotEffect::Emit(KnotEvent::DeadLetter { reason: DeadLetterReason::TtlExpired, .. })
    ));
}

#[test]
fn handle_packet_forwards_down_to_child() {
    let mut parent = hub(0);
    let child = Knot::new(1, CellMeta::new("Child"), KnotRole::Action, 1, Some(parent.id()), true);
    let child_id = child.id();
    parent.attach_child(child_id);
    let effects = parent.handle_packet(packet_to(child_id, fresh(), 200), None);
    assert!(matches!(effects[0], KnotEffect::Emit(KnotEvent::PacketForwardedDown { .. })));
    let to_child = effects
        .iter()
        .filter(|e| matches!(e, KnotEffect::PushChild { child_id: c, .. } if *c == child_id))
        .count();
    assert_eq!(to_child, 1);
}

#[test]
fn handle_packet_forwards_up_to_parent() {
    let parent = hub(0);
    let mut child = Knot::new(1, CellMeta::new("Child"), KnotRole::Action, 1, Some(parent.id()), true);
    let effects = child.handle_packet(packet_to(fresh(), child.id(), 50), None);
    assert!(matches!(effects[0], KnotEffect::Emit(KnotEvent::PacketForwardedUp { .. })));
    let to_parent = effects.iter().filter(|e| matches!(e, KnotEffect::PushParent { .. })).count();
    assert_eq!(to_parent, 1);
}

#[test]
fn handle_packet_no_route_emits_dead_letter() {
    let mut root = hub(0);
    let effects = root.handle_packet(packet_to(fresh(), fresh(), 1), None);
    assert!(matches!(
        effects[0],
        KnotEffect::Emit(KnotEvent::DeadLetter { reason: DeadLetterReason::NoRoute, .. })
    ));
}

#[test]
fn object_set_updates_shared_state() {
    let class = sensor_class();
    let mut o = Knot::new_object(1, CellMeta::new("Obj"), Some(&class), 1, None, false);
    let obj_id = o.id();
    let set_pkt = Packet::new(
        fresh(),
        obj_id,
        128,
        5000,
        obj(vec![("op", JsonValue::text("set")), ("property", JsonValue::text("temperature")), ("value", JsonValue::float("99.5"))]),
    );
    o.handle_packet(set_pkt, None);
    assert_eq!(o.get_property("temperature"), Some(JsonValue::float("99.5")));
}

#[test]
fn object_get_queues_response_in_inbox() {
    let class = sensor_class();
    let mut o = Knot::new_object(1, CellMeta::new("Obj"), Some(&class), 1, None, false);
    let obj_id = o.id();
    let sender = fresh();
    let get_pkt = Packet::new(
        sender,
        obj_id,
        128,
        5000,
        obj(vec![("op", JsonValue::text("get")), ("property", JsonValue::text("temperature"))]),
    );
    let effects = o.handle_packet(get_pkt, None);
    let replies = pushed_self(&effects);
    assert!(!replies.is_empty());
    assert_eq!(replies[0].payload.get("op").and_then(|v| v.as_str()), Some("get_response"));
    assert_eq!(replies[0].payload.get("value"), Some(&JsonValue::float("20.0")));
    assert_eq!(replies[0].target_id, sender);
}

#[test]
fn object_set_many_updates_multiple_properties() {
    let class = sensor_class();
    let mut o = Knot::new_object(1, CellMeta::new("Obj"), Some(&class), 1, None, false);
    let obj_id = o.id();
    let pkt = Packet::new(
        fresh(),
        obj_id,
        128,
        5000,
        obj(vec![
            ("op", JsonValue::text("set_many")),
            ("properties", obj(vec![("temperature", JsonValue::float("55.0")), ("active", JsonValue::Bool(false))])),
        ]),
    );
    o.handle_packet(pkt, None);
    assert_eq!(o.get_property("temperature"), Some(JsonValue::float("55.0")));
    assert_eq!(o.get_property("active"), Some(JsonValue::Bool(false)));
}

#[test]
fn object_initialised_with_class_defaults() {
    let class = sensor_class();
    let o = Knot::new_object(1, CellMeta::new("Obj"), Some(&class), 1, None, false);
    assert_eq!(o.get_property("temperature"), Some(JsonValue::float("20.0")));
    assert_eq!(o.get_property("active"), Some(JsonValue::Bool(true)));
}

#[test]
fn action_echo_engine_queues_response() {
    let mut act = Knot::new_action(1, CellMeta::new("Act"), Box::new(EchoEngine), 1, None, false);
    let act_id = act.id();
    let sender = fresh();
    let pkt = Packet::new(sender, act_id, 200, 5000, obj(vec![("msg", JsonValue::text("ping"))]));
    let effects = act.handle_packet(pkt, None);
    assert!(matches!(effects[0], KnotEffect::Emit(KnotEvent::PacketReceived { .. })));
    let replies = pushed_self(&effects);
    assert!(!replies.is_empty(), "expected echo response in inbox");
    assert_eq!(replies[0].target_id, sender);
    assert_eq!(replies[0].payload, obj(vec![("msg", JsonValue::text("ping"))]));
}

#[test]
fn link_object_adds_id_to_action() {
    let mut act = Knot::new_action(1, CellMeta::new("Act"), Box::new(EchoEngine), 1, None, false);
    let obj_id = fresh();
    act.link_object(obj_id);
    act.link_object(obj_id);
    let linked = act.linked_object_ids().expect("expected Action variant");
    assert_eq!(linked.len(), 1);
    assert_eq!(linked[0], obj_id);
}

#[test]
fn registry_entry_reflects_knot_state() {
    let class = sensor_class();
    let class_id = class.id;
    let mut o = Knot::new_object(5, CellMeta::new("Obj"), Some(&class), 2, None, false);
    let child_id = fresh();
    o.attach_child(child_id);
    let entry = o.registry_entry();
    assert_eq!(entry.id, o.id());
    assert_eq!(entry.level, 2);
    assert_eq!(entry.role, KnotRole::Object);
    assert_eq!(entry.class_id, Some(class_id));
    assert!(entry.child_ids.contains(&child_id));
}

#[test]
fn run_emits_started_and_stopped() {
    let knot = hub(0);
    let mut registry = KnotRegistry::new();
    let started = knot.started_event();
    assert!(matches!(started, KnotEvent::Started { .. }));
    knot.register_in(&mut registry);
    assert!(registry.get(&knot.id()).is_some());
    knot.deregister_from(&mut registry);
    assert!(registry.get(&knot.id()).is_none());
    let stopped = knot.stopped_event();
    assert!(matches!(stopped, KnotEvent::Stopped { .. }));
}

#[test]
fn volatile_get_set_round_trip() {
    let mut knot = hub(0);
    let key = StateKey::new(knot.id(), "temperature");
    knot.set(key.clone(), JsonValue::float("42.5"));
    assert_eq!(knot.get(&key), Some(&JsonValue::float("42.5")));
}

#[test]
fn knot_volatile_get_missing_returns_none() {
    let knot = hub(0);
    assert!(knot.get(&StateKey::new(fresh(), "missing")).is_none());
}

#[test]
fn class_knot_answers_with_its_schema() {
    let class = sensor_class();
    let mut ck = Knot::new_class(1, CellMeta::new("SensorClass"), class, 1, None, false);
    let sender = fresh();
    let effects = ck.handle_packet(Packet::new(sender, ck.id(), 9, 5000, JsonValue::Null), None);
    let replies = pushed_self(&effects);
    assert_eq!(replies.len(), 1);
    assert_eq!(replies[0].target_id, sender);
    assert_eq!(replies[0].priority, 9);
    assert_eq!(replies[0].payload.get("op").and_then(|v| v.as_str()), Some("class_schema"));
    let schema = replies[0].payload.get("schema").expect("schema");
    assert_eq!(schema.get("name").and_then(|v| v.as_str()), Some("Sensor"));
}

#[test]
fn object_writes_are_mirrored_into_the_registry() {
    let class = sensor_class();
    let mut o = Knot::new_object(1, CellMeta::new("Obj"), Some(&class), 1, None, false);
    let mut registry = KnotRegistry::new();
    let pkt = Packet::new(
        fresh(),
        o.id(),
        128,
        5000,
        obj(vec![("op", JsonValue::text("set")), ("property", JsonValue::text("active")), ("value", JsonValue::Bool(false))]),
    );
    let effects = o.handle_packet(pkt, Some(&registry));
    apply_sync_effects(&mut registry, &effects);
    let state = registry.get_state_snapshot(&o.id()).expect("state");
    assert_eq!(state.get(&"active".to_string()), Some(&JsonValue::Bool(false)));
}

#[test]
fn routing_rules_in_order() {
    let mut k = Knot::new(0, CellMeta::new("K"), KnotRole::Hub, 0, None, true);
    let child = fresh();
    k.attach_child(child);
    let p_self = packet_to(k.id(), fresh(), 1);
    let p_child = packet_to(child, fresh(), 1);
    let p_other = packet_to(fresh(), fresh(), 1);
    assert_eq!(k.route(&p_self, 0), Route::Local);
    assert_eq!(k.route(&p_child, 0), Route::Down);
    assert_eq!(k.route(&p_other, 0), Route::Up);
    assert_eq!(k.route(&p_self, 30_000_000_001), Route::Expired);
    let root = Knot::new(0, CellMeta::new("R"), KnotRole::Hub, 0, None, false);
    assert_eq!(root.route(&p_other, 0), Route::Unroutable);
}

#[test]
fn get_all_reports_every_property() {
    let class = sensor_class();
    let mut o = Knot::new_object(1, CellMeta::new("Obj"), Some(&class), 1, None, false);
    let effects = o.handle_packet(Packet::new(fresh(), o.id(), 1, 5000, obj(vec![("op", JsonValue::text("get_all"))])), None);
    let replies = pushed_self(&effects);
    assert_eq!(replies.len(), 1);
    assert_eq!(replies[0].payload.get("op").and_then(|v| v.as_str()), Some("get_all_response"));
    let props = replies[0].payload.get("properties").expect("properties");
    assert_eq!(props.get("temperature"), Some(&JsonValue::float("20.0")));
    assert_eq!(props.get("active"), Some(&JsonValue::Bool(true)));
}

#[test]
fn get_after_set_returns_written_value() {
    let mut o = Knot::new_object(1, CellMeta::new("Obj"), None, 1, None, false);
    let id = o.id();
    let set = obj(vec![("op", JsonValue::text("set")), ("property", JsonValue::text("mode")), ("value", JsonValue::text("eco"))]);
    o.handle_packet(Packet::new(fresh(), id, 1, 5000, set), None);
    let get = obj(vec![("op", JsonValue::text("get")), ("property", JsonValue::text("mode"))]);
    let effects = o.handle_packet(Packet::new(fresh(), id, 1, 5000, get), None);
    let replies = pushed_self(&effects);
    assert_eq!(replies[0].payload.get("value"), Some(&JsonValue::text("eco")));
}

#[test]
fn set_many_last_write_wins() {
    let mut o = Knot::new_object(1, CellMeta::new("Obj"), None, 1, None, false);
    let id = o.id();
    let props = obj(vec![("a", JsonValue::uint(1)), ("b", JsonValue::uint(2)), ("a", JsonValue::uint(3))]);
    let effects = o.handle_packet(Packet::new(fresh(), id, 1, 5000, obj(vec![("op", JsonValue::text("set_many")), ("properties", props)])), None);
    assert_eq!(o.get_property("a"), Some(JsonValue::uint(3)));
    assert_eq!(o.get_property("b"), Some(JsonValue::uint(2)));
    let replies = pushed_self(&effects);
    assert_eq!(replies[0].payload.get("op").and_then(|v| v.as_str()), Some("set_many_ack"));
    assert_eq!(replies[0].payload.get("count"), Some(&JsonValue::uint(3)));
}

#[test]
fn detached_child_is_escalated() {
    let mut k = Knot::new(0, CellMeta::new("K"), KnotRole::Hub, 1, Some(fresh()), true);
    let child = fresh();
    k.attach_child(child);
    assert_eq!(k.route(&packet_to(child, fresh(), 1), 0), Route::Down);
    k.detach_child(&child);
    assert_eq!(k.route(&packet_to(child, fresh(), 1), 0), Route::Up);
}

#[test]
fn role_names_round_trip() {
    for r in [KnotRole::Hub, KnotRole::Action, KnotRole::Object, KnotRole::Class] {
        assert_eq!(KnotRole::from_name(&r.name()), Some(r));
    }
    assert_eq!(KnotRole::from_name("hub"), None);
}

#[test]
fn unknown_operations_change_nothing() {
    let mut o = Knot::new_object(1, CellMeta::new("Obj"), None, 1, None, false);
    let id = o.id();
    let effects = o.handle_packet(Packet::new(fresh(), id, 1, 5000, obj(vec![("op", JsonValue::text("explode"))])), None);
    assert_eq!(effects.len(), 1);
    assert!(o.shared_state().unwrap().len() == 0);
}

#[test]
fn knot_description_is_exact() {
    let k = Knot::from_parts(7, 1, CellMeta::new("Root Hub"), KnotRole::Hub, 0, None, false);
    assert_eq!(k.describe(), format!("Knot {{ id: {}, role: Hub, level: 0, name: \"Root Hub\" }}", uuid::Uuid::from_u128(7)));
}

#[test]
fn replies_have_exactly_their_fields() {
    let mut o = Knot::new_object(1, CellMeta::new("Obj"), None, 1, None, false);
    let id = o.id();
    let set = obj(vec![("op", JsonValue::text("set")), ("property", JsonValue::text("p")), ("value", JsonValue::uint(1))]);
    let effects = o.handle_packet(Packet::new(fresh(), id, 1, 5000, set), None);
    let ack = &pushed_self(&effects)[0].payload;
    assert_eq!(ack, &obj(vec![("op", JsonValue::text("set_ack")), ("property", JsonValue::text("p"))]));
}

#[test]
fn default_knots_start_in_their_role_state() {
    let c = Knot::new(0, CellMeta::new("C"), KnotRole::Class, 0, None, false);
    assert_eq!(c.variant_name(), "Class");
    assert!(c.class_id().is_some());
    let h = Knot::new_hub(0, CellMeta::new("H"), 0, None, false);
    assert_eq!(h.class_id(), None);
    let a = Knot::new(0, CellMeta::new("A"), KnotRole::Action, 0, None, false);
    assert_eq!(a.variant_name(), "Action");
    assert_eq!(a.linked_object_ids(), Some(vec![]));
}

#[test]
fn action_engine_sees_its_own_knot_and_the_packet() {
    let mut act = Knot::new_action(1, CellMeta::new("Act"), Box::new(EchoEngine), 1, None, false);
    let act_id = act.id();
    let sender = fresh();
    let effects = act.handle_packet(Packet::new(sender, act_id, 77, 5000, JsonValue::uint(5)), None);
    let replies = pushed_self(&effects);
    assert_eq!(replies.len(), 1);
    assert_eq!(replies[0].sender_id, act_id);
    assert_eq!(replies[0].target_id, sender);
    assert_eq!(replies[0].priority, 77);
    assert_eq!(replies[0].payload, JsonValue::uint(5));
    let logged = effects.iter().any(|e| matches!(e,
        KnotEffect::Emit(KnotEvent::ActionExecuted { knot_id, engine_name, .. }) if *knot_id == act_id && engine_name == "EchoEngine"));
    assert!(logged);
}
