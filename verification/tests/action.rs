use hubflow::action::{ActionContext, EchoEngine, LogicEngine, ScriptEngine, reply_packet, REPLY_TTL_MS};
use hubflow::assoc::AssocMap;
use hubflow::json::JsonValue;
use hubflow::packet::Packet;

fn ctx(payload: JsonValue) -> ActionContext {
    let self_id = uuid::Uuid::new_v4().as_u128();
    let sender = uuid::Uuid::new_v4().as_u128();
    ActionContext {
        self_id,
        incoming: Packet::new(sender, self_id, 128, 5000, payload),
        objects: AssocMap::new(),
    }
}

fn msg(text: &str) -> JsonValue {
    JsonValue::object(vec![("msg".to_string(), JsonValue::text(text))])
}

#[test]
fn echo_reflects_payload_to_sender() {
    let engine = EchoEngine;
    let ctx = ctx(msg("hello"));
    let sender = ctx.incoming.sender_id;
    let out = engine.execute(&ctx);
    assert_eq!(out.packets.len(), 1);
    assert_eq!(out.packets[0].target_id, sender);
    assert_eq!(out.packets[0].payload, msg("hello"));
    assert!(!out.logs.is_empty());
}

#[test]
fn script_engine_is_placeholder() {
    let engine = ScriptEngine::new("test", "print('hi')");
    let out = engine.execute(&ctx(JsonValue::Null));
    assert!(out.packets.is_empty());
    assert!(out.logs[0].contains("not yet implemented"));
}

#[test]
fn script_engine_keeps_name_and_script() {
    let engine = ScriptEngine::new("calc", "x = 1");
    assert_eq!(engine.name, "calc");
    assert_eq!(engine.script, "x = 1");
    assert_eq!(engine.name(), "calc");
    let out = engine.execute(&ctx(JsonValue::Null));
    assert_eq!(out.logs, vec!["ScriptEngine 'calc': Python execution not yet implemented".to_string()]);
}

#[test]
fn echo_log_names_the_sender() {
    let c = ctx(msg("x"));
    let sender = uuid::Uuid::from_u128(c.incoming.sender_id).to_string();
    let out = EchoEngine.execute(&c);
    assert_eq!(out.logs[0], format!("echo: reflected packet from {sender}"));
    assert_eq!(EchoEngine.name(), "EchoEngine");
}

#[test]
fn replies_go_back_with_the_reply_ttl() {
    let c = ctx(JsonValue::Null);
    let p = reply_packet(&c, JsonValue::Bool(true));
    assert_eq!(p.sender_id, c.self_id);
    assert_eq!(p.target_id, c.incoming.sender_id);
    assert_eq!(p.priority, c.incoming.priority);
    assert_eq!(p.ttl_ms, REPLY_TTL_MS);
    assert_eq!(p.payload, JsonValue::Bool(true));
}
