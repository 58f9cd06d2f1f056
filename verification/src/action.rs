//! Action logic: the engines that Action Knots run on delivered packets.
//!
//! An engine receives the triggering packet and snapshots of the Object
//! Knots linked to the Action, and returns property updates, packets to
//! route and log lines.

use vstd::prelude::*;
use vstd::string::*;
use crate::assoc::AssocMap;
use crate::json::{JsonValue, clone_value};
use crate::packet::Packet;
use crate::state::PropertyMap;
use crate::ids::{id_to_string, uuid_text};

verus! {

/// Time-to-live of the packets Knots send in reply, in milliseconds.
pub const REPLY_TTL_MS: u64 = 5000u64;

/// A point-in-time copy of an Object Knot's properties.
pub struct ObjectSnapshot {
    /// Identity of the Object Knot.
    pub id: u128,
    /// Identity of its class, if any.
    pub class_id: Option<u128>,
    /// Property values by name.
    pub properties: PropertyMap,
}

/// What an engine sees when a packet arrives.
pub struct ActionContext {
    /// Identity of the Action Knot.
    pub self_id: u128,
    /// The packet that triggered the execution.
    pub incoming: Packet,
    /// Snapshots of the linked Object Knots, by identity.
    pub objects: AssocMap<u128, ObjectSnapshot>,
}

/// A property write produced by an engine.
pub struct PropertyUpdate {
    /// Identity of the Object Knot to write.
    pub object_id: u128,
    /// Name of the property.
    pub property_name: String,
    /// The new value.
    pub value: JsonValue,
}

/// The result of one engine execution.
pub struct ActionOutput {
    /// Property updates for linked Object Knots.
    pub updates: Vec<PropertyUpdate>,
    /// Packets to route into the network.
    pub packets: Vec<Packet>,
    /// Log lines for subscribers.
    pub logs: Vec<String>,
}

impl ActionOutput {
    /// An output with no updates, packets or logs.
    pub fn empty() -> (o: Self)
        ensures
            o.updates@.len() == 0,
            o.packets@.len() == 0,
            o.logs@.len() == 0,
    {
        ActionOutput { updates: Vec::new(), packets: Vec::new(), logs: Vec::new() }
    }
}

impl Default for ActionOutput {
    fn default() -> (o: Self)
        ensures
            o.updates@.len() == 0,
            o.packets@.len() == 0,
            o.logs@.len() == 0,
    {
        ActionOutput::empty()
    }
}

/// A computation hook for Action Knots.
///
/// An engine may say what its name is and which outputs it may return for
/// a context, and `name` and `execute` keep to that. By default it says
/// nothing: every name and every output is allowed.
pub trait LogicEngine: Send + Sync {
    /// `name` may be the engine's name.
    open spec fn names(&self, name: Seq<char>) -> bool {
        true
    }

    /// `o` is an output the engine may return for `ctx`.
    open spec fn produces(&self, ctx: ActionContext, o: ActionOutput) -> bool {
        true
    }

    /// The engine's name.
    fn name(&self) -> (s: &str)
        ensures
            self.names(s@);

    /// Runs the engine on a delivered packet.
    fn execute(&self, ctx: &ActionContext) -> (o: ActionOutput)
        ensures
            self.produces(*ctx, o);
}

/// What the echo engine returns for `ctx`: no updates, one reply to the
/// sender carrying the incoming payload, and one log line naming the sender.
pub open spec fn echo_output(ctx: ActionContext, o: ActionOutput) -> bool {
    &&& o.updates@.len() == 0
    &&& o.packets@.len() == 1
    &&& is_reply(o.packets@[0], ctx.self_id, ctx.incoming)
    &&& o.packets@[0].payload == ctx.incoming.payload
    &&& o.logs@.len() == 1
    &&& o.logs@[0]@ == "echo: reflected packet from "@ + uuid_text(ctx.incoming.sender_id)
}

/// What a script engine named `name` returns: only the log line saying that
/// scripts cannot run yet.
pub open spec fn script_output(name: Seq<char>, o: ActionOutput) -> bool {
    &&& o.updates@.len() == 0
    &&& o.packets@.len() == 0
    &&& o.logs@.len() == 1
    &&& o.logs@[0]@ == "ScriptEngine '"@ + name + "': Python execution not yet implemented"@
}

/// `p` answers packet `incoming` on behalf of Knot `from`: it goes back to
/// the sender, with the same priority and the reply TTL.
pub open spec fn is_reply(p: Packet, from: u128, incoming: Packet) -> bool {
    &&& p.sender_id == from
    &&& p.target_id == incoming.sender_id
    &&& p.priority == incoming.priority
    &&& p.ttl_ms == REPLY_TTL_MS
}

/// A reply from the context's Action Knot to the sender of the incoming
/// packet, carrying `payload`.
pub fn reply_packet(ctx: &ActionContext, payload: JsonValue) -> (p: Packet)
    ensures
        is_reply(p, ctx.self_id, ctx.incoming),
        p.payload == payload,
{
    Packet::new(ctx.self_id, ctx.incoming.sender_id, ctx.incoming.priority, REPLY_TTL_MS, payload)
}

/// An engine that sends every incoming packet's payload back to its sender.
#[derive(Debug, Clone, Copy, Default)]
pub struct EchoEngine;

impl LogicEngine for EchoEngine {
    open spec fn names(&self, name: Seq<char>) -> bool {
        name == "EchoEngine"@
    }

    open spec fn produces(&self, ctx: ActionContext, o: ActionOutput) -> bool {
        echo_output(ctx, o)
    }

    fn name(&self) -> (s: &str)
        ensures
            s@ == "EchoEngine"@,
    {
        "EchoEngine"
    }

    fn execute(&self, ctx: &ActionContext) -> (o: ActionOutput)
        ensures
            o.updates@.len() == 0,
            o.packets@.len() == 1,
            is_reply(o.packets@[0], ctx.self_id, ctx.incoming),
            o.packets@[0].payload == ctx.incoming.payload,
            o.logs@.len() == 1,
            o.logs@[0]@ == "echo: reflected packet from "@ + uuid_text(ctx.incoming.sender_id),
    {
        let response = reply_packet(ctx, clone_value(&ctx.incoming.payload));
        let line = "echo: reflected packet from ".to_owned().concat(id_to_string(ctx.incoming.sender_id).as_str());
        let mut packets = Vec::new();
        packets.push(response);
        let mut logs = Vec::new();
        logs.push(line);
        ActionOutput { updates: Vec::new(), packets, logs }
    }
}

/// What a transforming engine named `name` outputs once its transform has
/// turned the incoming payload into `new_payload`: one reply carrying
/// `new_payload` and one log line.
pub fn transform_output(ctx: &ActionContext, name: &str, new_payload: JsonValue) -> (o: ActionOutput)
    ensures
        o.updates@.len() == 0,
        o.packets@.len() == 1,
        is_reply(o.packets@[0], ctx.self_id, ctx.incoming),
        o.packets@[0].payload == new_payload,
        o.logs@.len() == 1,
        o.logs@[0]@ == "transform '"@ + name@ + "': payload processed"@,
{
    let response = reply_packet(ctx, new_payload);
    let line = "transform '".to_owned().concat(name).concat("': payload processed");
    let mut packets = Vec::new();
    packets.push(response);
    let mut logs = Vec::new();
    logs.push(line);
    ActionOutput { updates: Vec::new(), packets, logs }
}

/// A placeholder for engines that run scripts; it only logs that script
/// execution is not available.
#[derive(Debug)]
pub struct ScriptEngine {
    /// Display name of the engine.
    pub name: String,
    /// Script source.
    pub script: String,
}

impl ScriptEngine {
    /// An engine with the given name and script body.
    pub fn new(name: &str, script: &str) -> (e: Self)
        ensures
            e.name@ == name@,
            e.script@ == script@,
    {
        ScriptEngine { name: name.to_owned(), script: script.to_owned() }
    }
}

impl LogicEngine for ScriptEngine {
    open spec fn names(&self, name: Seq<char>) -> bool {
        name == self.name@
    }

    open spec fn produces(&self, ctx: ActionContext, o: ActionOutput) -> bool {
        script_output(self.name@, o)
    }

    fn name(&self) -> (s: &str)
        ensures
            s@ == self.name@,
    {
        self.name.as_str()
    }

    fn execute(&self, ctx: &ActionContext) -> (o: ActionOutput)
        ensures
            o.updates@.len() == 0,
            o.packets@.len() == 0,
            o.logs@.len() == 1,
            o.logs@[0]@ == "ScriptEngine '"@ + self.name@ + "': Python execution not yet implemented"@,
    {
        let line = "ScriptEngine '".to_owned().concat(self.name.as_str())
            .concat("': Python execution not yet implemented");
        let mut logs = Vec::new();
        logs.push(line);
        ActionOutput { updates: Vec::new(), packets: Vec::new(), logs }
    }
}

} // verus!
