use hubflow::api::{
    commit_delete, commit_link, internal_error, commit_update, created_entry, entry_row, link_body, linked_child_row,
    lookup_knot, lookup_knot_state, method_not_found, parse_error, parse_knot_id, plan_create_knot,
    plan_create_link, queued_body, register_created, rpc_method, rpc_send_packet, ApiError,
    CreateKnotRequest, CreateLinkRequest, InjectPacketRequest, JsonRpcResponse, RpcMethod,
    UpdateKnotRequest, INTERNAL_ERROR, INVALID_PARAMS, METHOD_NOT_FOUND, PARSE_ERROR,
};
use hubflow::cell::CellMeta;
use hubflow::json::JsonValue;
use hubflow::knot::KnotRole;
use hubflow::registry::{KnotRegistry, RegistryEntry};

fn fresh() -> u128 {
    uuid::Uuid::new_v4().as_u128()
}

fn text(id: u128) -> String {
    uuid::Uuid::from_u128(id).to_string()
}

fn entry(id: u128, level: u32, parent: Option<u128>) -> RegistryEntry {
    RegistryEntry {
        id,
        local_id: 0,
        meta: CellMeta::new("E"),
        role: KnotRole::Hub,
        level,
        parent_id: parent,
        class_id: None,
        child_ids: vec![],
    }
}

fn create(name: &str, role: &str, parent: Option<u128>) -> CreateKnotRequest {
    CreateKnotRequest { name: name.to_string(), description: None, role: role.to_string(), parent_id: parent }
}

#[test]
fn inject_packet_defaults() {
    let target = fresh();
    let req = InjectPacketRequest { target_id: target, sender_id: None, priority: None, ttl_ms: None, payload: None };
    let p = req.into_packet();
    assert_eq!(p.target_id, target);
    assert_eq!(p.sender_id, 0);
    assert_eq!(p.priority, 128);
    assert_eq!(p.ttl_ms, 5000);
    assert_eq!(p.payload, JsonValue::object(vec![]));
    let sender = fresh();
    let req = InjectPacketRequest { target_id: target, sender_id: Some(sender), priority: Some(7), ttl_ms: Some(9), payload: Some(JsonValue::Bool(true)) };
    let p = req.into_packet();
    assert_eq!((p.sender_id, p.priority, p.ttl_ms), (sender, 7, 9));
    assert_eq!(p.payload, JsonValue::Bool(true));
}

#[test]
fn queued_body_says_queued() {
    assert_eq!(queued_body().get("status").and_then(|v| v.as_str()), Some("queued"));
}

#[test]
fn knot_ids_in_paths() {
    let id = fresh();
    assert_eq!(parse_knot_id(&text(id)).unwrap(), id);
    let e = parse_knot_id("zzz").unwrap_err();
    assert_eq!(e.status(), 400);
    assert_eq!(e.body().get("error").and_then(|v| v.as_str()), Some("invalid UUID"));
}

#[test]
fn lookup_answers_entry_or_not_found() {
    let mut reg = KnotRegistry::new();
    let id = fresh();
    reg.upsert(entry(id, 0, None));
    assert_eq!(lookup_knot(&reg, &text(id)).unwrap().id, id);
    let e = lookup_knot(&reg, &text(fresh())).unwrap_err();
    assert_eq!(e.status(), 404);
    assert!(matches!(e, ApiError::NotFound(ref m) if m == "knot not found"));
    assert_eq!(lookup_knot(&reg, "nope").unwrap_err().status(), 400);
    let e = lookup_knot_state(&reg, &text(id)).unwrap_err();
    assert!(matches!(e, ApiError::NotFound(ref m) if m == "knot not found or has no state"));
    reg.set_state(id, "t".to_string(), JsonValue::uint(1));
    let m = lookup_knot_state(&reg, &text(id)).unwrap();
    assert_eq!(m.get(&"t".to_string()), Some(&JsonValue::uint(1)));
}

#[test]
fn create_knot_validates_role_then_parent() {
    let mut reg = KnotRegistry::new();
    let e = plan_create_knot(&create("X", "Planet", Some(fresh())), &reg).unwrap_err();
    assert!(matches!(e, ApiError::BadRequest(ref m) if m == "unknown role: Planet"));
    let e = plan_create_knot(&create("X", "Hub", Some(fresh())), &reg).unwrap_err();
    assert!(matches!(e, ApiError::NotFound(ref m) if m == "parent_id not found"));
    let root = plan_create_knot(&create("X", "Object", None), &reg).unwrap();
    assert_eq!((root.role, root.level), (KnotRole::Object, 0));
    let pid = fresh();
    reg.upsert(entry(pid, 3, None));
    let plan = plan_create_knot(&create("Child", "Action", Some(pid)), &reg).unwrap();
    assert_eq!((plan.role, plan.level), (KnotRole::Action, 4));
}

#[test]
fn created_knot_is_registered_under_its_parent() {
    let mut reg = KnotRegistry::new();
    let pid = fresh();
    reg.upsert(entry(pid, 0, None));
    let req = CreateKnotRequest { name: "N".to_string(), description: Some("d".to_string()), role: "Class".to_string(), parent_id: Some(pid) };
    let plan = plan_create_knot(&req, &reg).unwrap();
    let id = fresh();
    let e = created_entry(id, 17, &req, &plan);
    assert_eq!(e.meta.description.as_deref(), Some("d"));
    let row = entry_row(&e);
    assert_eq!((row.role.as_str(), row.level, row.local_id), ("Class", 1, 17));
    register_created(&mut reg, e);
    assert_eq!(reg.get(&id).unwrap().role, KnotRole::Class);
    assert_eq!(reg.get(&pid).unwrap().child_ids, vec![id]);
}

#[test]
fn create_link_checks_in_order() {
    let mut reg = KnotRegistry::new();
    let (s, t) = (fresh(), fresh());
    let req = CreateLinkRequest { source_id: s, target_id: t, link_type: None };
    let e = plan_create_link(&req, &reg).unwrap_err();
    assert!(matches!(e, ApiError::NotFound(ref m) if m == "source_id not found"));
    reg.upsert(entry(s, 2, None));
    let e = plan_create_link(&req, &reg).unwrap_err();
    assert!(matches!(e, ApiError::NotFound(ref m) if m == "target_id not found"));
    let self_loop = CreateLinkRequest { source_id: s, target_id: s, link_type: None };
    let e = plan_create_link(&self_loop, &reg).unwrap_err();
    assert_eq!(e.status(), 400);
    reg.upsert(entry(t, 0, None));
    let plan = plan_create_link(&req, &reg).unwrap();
    assert_eq!(plan.link_type, "edge");
    assert_eq!(plan.level, 3);
    let typed = CreateLinkRequest { source_id: s, target_id: t, link_type: Some("data_flow".to_string()) };
    assert_eq!(plan_create_link(&typed, &reg).unwrap().link_type, "data_flow");
}

#[test]
fn committed_link_moves_the_child() {
    let mut reg = KnotRegistry::new();
    let (s, t) = (fresh(), fresh());
    reg.upsert(entry(s, 2, None));
    reg.upsert(entry(t, 0, None));
    let child = reg.get(&t).unwrap();
    let row = linked_child_row(&child, s, 3);
    assert_eq!((row.parent_id, row.level), (Some(s), 3));
    commit_link(&mut reg, s, t, 3);
    let c = reg.get(&t).unwrap();
    assert_eq!((c.parent_id, c.level), (Some(s), 3));
    assert_eq!(reg.get(&s).unwrap().child_ids, vec![t]);
    let body = link_body(fresh(), s, t, &"edge".to_string());
    assert_eq!(body.get("source_id").and_then(|v| v.as_str()), Some(text(s).as_str()));
    assert_eq!(body.get("link_type").and_then(|v| v.as_str()), Some("edge"));
}

#[test]
fn update_changes_only_given_fields() {
    let mut reg = KnotRegistry::new();
    let id = fresh();
    reg.upsert(RegistryEntry { meta: CellMeta::with_description("Old", "keep"), ..entry(id, 0, None) });
    commit_update(&mut reg, id, UpdateKnotRequest { name: Some("New".to_string()), description: None });
    let e = reg.get(&id).unwrap();
    assert_eq!(e.meta.name, "New");
    assert_eq!(e.meta.description.as_deref(), Some("keep"));
    commit_update(&mut reg, id, UpdateKnotRequest { name: None, description: None });
    assert_eq!(reg.get(&id).unwrap().meta.name, "New");
}

#[test]
fn delete_removes_entry_and_child_listings() {
    let mut reg = KnotRegistry::new();
    let (p, c) = (fresh(), fresh());
    reg.upsert(entry(p, 0, None));
    reg.upsert(entry(c, 1, Some(p)));
    reg.add_child_id(&p, c);
    commit_delete(&mut reg, c);
    assert!(reg.get(&c).is_none());
    assert!(reg.get(&p).unwrap().child_ids.is_empty());
}

#[test]
fn rpc_envelopes() {
    assert_eq!(rpc_method("send_packet"), RpcMethod::SendPacket);
    assert_eq!(rpc_method("get_graph"), RpcMethod::GetGraph);
    assert_eq!(rpc_method("ping"), RpcMethod::Unknown);
    let r = method_not_found(Some(JsonValue::uint(3)), "ping");
    let e = r.error.unwrap();
    assert_eq!((e.code, e.message.as_str()), (METHOD_NOT_FOUND, "method not found: ping"));
    assert_eq!(r.id, Some(JsonValue::uint(3)));
    let r = parse_error("eof");
    assert_eq!(r.error.unwrap().code, PARSE_ERROR);
    let ok = JsonRpcResponse::ok(None, JsonValue::Bool(true));
    assert_eq!(ok.jsonrpc, "2.0");
    assert!(ok.error.is_none());
}

#[test]
fn rpc_send_packet_cases() {
    let (r, p) = rpc_send_packet(Some(JsonValue::uint(1)), None);
    assert!(p.is_none());
    let e = r.error.unwrap();
    assert_eq!((e.code, e.message.as_str()), (INVALID_PARAMS, "params required for send_packet"));
    let (r, _) = rpc_send_packet(None, Some(Err("missing field `target_id`".to_string())));
    assert_eq!(r.error.unwrap().message, "invalid params: missing field `target_id`");
    let target = fresh();
    let req = InjectPacketRequest { target_id: target, sender_id: None, priority: None, ttl_ms: None, payload: None };
    let (r, p) = rpc_send_packet(Some(JsonValue::uint(2)), Some(Ok(req)));
    assert_eq!(r.result.unwrap().get("status").and_then(|v| v.as_str()), Some("queued"));
    assert_eq!(p.unwrap().target_id, target);
}

#[test]
fn internal_errors_carry_detail() {
    let r = internal_error(Some(JsonValue::uint(4)), "disk full");
    let e = r.error.unwrap();
    assert_eq!((e.code, e.message.as_str()), (INTERNAL_ERROR, "internal error: disk full"));
    let a = ApiError::Internal("boom".to_string());
    assert_eq!(a.status(), 500);
    assert_eq!(a.body().get("error").and_then(|v| v.as_str()), Some("boom"));
}

#[test]
fn answer_bodies_have_exactly_their_fields() {
    assert_eq!(queued_body(), JsonValue::object(vec![("status".to_string(), JsonValue::text("queued"))]));
    let e = ApiError::NotFound("x".to_string()).body();
    assert_eq!(e, JsonValue::object(vec![("error".to_string(), JsonValue::text("x"))]));
    let body = link_body(1, 2, 3, &"edge".to_string());
    assert_eq!(
        body,
        JsonValue::object(vec![
            ("id".to_string(), JsonValue::text(&text(1))),
            ("source_id".to_string(), JsonValue::text(&text(2))),
            ("target_id".to_string(), JsonValue::text(&text(3))),
            ("link_type".to_string(), JsonValue::text("edge")),
        ])
    );
}

#[test]
fn create_refusals_need_no_level_bound() {
    let mut reg = KnotRegistry::new();
    let top = fresh();
    reg.upsert(entry(top, u32::MAX, None));
    let e = plan_create_knot(&create("X", "Moon", Some(top)), &reg).unwrap_err();
    assert_eq!(e.status(), 400);
    let missing = CreateLinkRequest { source_id: top, target_id: fresh(), link_type: None };
    assert_eq!(plan_create_link(&missing, &reg).unwrap_err().status(), 404);
    let self_loop = CreateLinkRequest { source_id: top, target_id: top, link_type: None };
    assert_eq!(plan_create_link(&self_loop, &reg).unwrap_err().status(), 400);
}
