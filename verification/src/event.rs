//! Events a Knot reports about its routing decisions and state changes, and
//! their JSON envelopes for subscribers.

use vstd::prelude::*;
use crate::json::{JsonValue, JsonFields, JsonList, clone_value, field};
use crate::packet::{Packet, is_packet_json};
use crate::ids::{id_to_string, uuid_text};
use crate::text::{decimal, json_text, push_str, push_decimal, push_json, string_of};

verus! {

/// Why a packet could not be delivered.
#[derive(Debug, Clone, Copy, PartialEq, Eq)]
pub enum DeadLetterReason {
    /// The TTL elapsed before delivery.
    TtlExpired,
    /// The target is unknown and there is no parent to escalate to.
    NoRoute,
    /// The packet exceeded the maximum hop count.
    MaxHopsExceeded,
}

impl DeadLetterReason {
    /// The human-readable reason.
    pub open spec fn spec_text(self) -> Seq<char> {
        match self {
            DeadLetterReason::TtlExpired => "TTL expired"@,
            DeadLetterReason::NoRoute => "no route to target"@,
            DeadLetterReason::MaxHopsExceeded => "maximum hop count exceeded"@,
        }
    }

    /// The human-readable reason: `TTL expired`, `no route to target` or
    /// `maximum hop count exceeded`.
    pub fn to_text(&self) -> (s: String)
        ensures
            s@ == self.spec_text(),
    {
        match self {
            DeadLetterReason::TtlExpired => "TTL expired".to_owned(),
            DeadLetterReason::NoRoute => "no route to target".to_owned(),
            DeadLetterReason::MaxHopsExceeded => "maximum hop count exceeded".to_owned(),
        }
    }
}

/// An observable event produced by a Knot or by changes to the topology.
#[derive(Debug, Clone)]
pub enum KnotEvent {
    /// The Knot's run loop has started.
    Started { knot_id: u128 },
    /// The Knot's run loop has stopped.
    Stopped { knot_id: u128 },
    /// A packet addressed to this Knot was received and is being executed.
    PacketReceived { packet: Packet },
    /// A packet was forwarded to a known child.
    PacketForwardedDown { target_id: u128, packet: Packet },
    /// A packet with an unknown target was escalated to the parent.
    PacketForwardedUp { packet: Packet },
    /// A packet could not be delivered and was dropped.
    DeadLetter { packet: Packet, reason: DeadLetterReason },
    /// A property of an Object Knot changed.
    ObjectStateChanged { knot_id: u128, property: String, value: JsonValue },
    /// An Action Knot's engine completed and produced log lines.
    ActionExecuted { knot_id: u128, engine_name: String, logs: Vec<String> },
    /// A Knot was removed from the topology.
    KnotDeleted { knot_id: u128 },
    /// Subscribers should fetch the whole topology again.
    GraphRefresh,
}

/// A named event with a flat JSON payload, as pushed to subscribers.
#[derive(Debug)]
pub struct EventEnvelope {
    /// The event's variant name (for example `PacketReceived`).
    pub event_type: String,
    /// Variant-specific data.
    pub payload: JsonValue,
}

/// The variant name of an event.
pub open spec fn event_type_name(e: KnotEvent) -> Seq<char> {
    match e {
        KnotEvent::Started { .. } => "Started"@,
        KnotEvent::Stopped { .. } => "Stopped"@,
        KnotEvent::PacketReceived { .. } => "PacketReceived"@,
        KnotEvent::PacketForwardedDown { .. } => "PacketForwardedDown"@,
        KnotEvent::PacketForwardedUp { .. } => "PacketForwardedUp"@,
        KnotEvent::DeadLetter { .. } => "DeadLetter"@,
        KnotEvent::ObjectStateChanged { .. } => "ObjectStateChanged"@,
        KnotEvent::ActionExecuted { .. } => "ActionExecuted"@,
        KnotEvent::KnotDeleted { .. } => "KnotDeleted"@,
        KnotEvent::GraphRefresh => "GraphRefresh"@,
    }
}

/// `l` holds JSON strings with the texts of `logs`, in order.
pub open spec fn is_text_list(l: JsonList, logs: Seq<String>) -> bool {
    &&& l.spec_items().len() == logs.len()
    &&& forall|i: int| 0 <= i < logs.len() ==> (#[trigger] l.spec_items()[i]).spec_text() == Some(logs[i]@)
}

/// The payload `v` carries what event `e` says.
pub open spec fn is_event_payload(e: KnotEvent, v: JsonValue) -> bool {
    match e {
        KnotEvent::Started { knot_id } => v.spec_object_len() == Some(1nat)
            && v.spec_text_field("knot_id"@) == Some(uuid_text(knot_id)),
        KnotEvent::Stopped { knot_id } => v.spec_object_len() == Some(1nat)
            && v.spec_text_field("knot_id"@) == Some(uuid_text(knot_id)),
        KnotEvent::PacketReceived { packet } => is_packet_json(v, packet),
        KnotEvent::PacketForwardedDown { target_id, packet } => {
            &&& v.spec_object_len() == Some(2nat)
            &&& v.spec_text_field("target_id"@) == Some(uuid_text(target_id))
            &&& v.spec_field("packet"@) matches Some(pj) && is_packet_json(pj, packet)
        },
        KnotEvent::PacketForwardedUp { packet } => is_packet_json(v, packet),
        KnotEvent::DeadLetter { packet, reason } => {
            &&& v.spec_object_len() == Some(2nat)
            &&& v.spec_text_field("reason"@) == Some(reason.spec_text())
            &&& v.spec_field("packet"@) matches Some(pj) && is_packet_json(pj, packet)
        },
        KnotEvent::ObjectStateChanged { knot_id, property, value } => {
            &&& v.spec_object_len() == Some(3nat)
            &&& v.spec_text_field("knot_id"@) == Some(uuid_text(knot_id))
            &&& v.spec_text_field("property"@) == Some(property@)
            &&& v.spec_field("value"@) == Some(value)
        },
        KnotEvent::ActionExecuted { knot_id, engine_name, logs } => {
            &&& v.spec_object_len() == Some(3nat)
            &&& v.spec_text_field("knot_id"@) == Some(uuid_text(knot_id))
            &&& v.spec_text_field("engine_name"@) == Some(engine_name@)
            &&& v.spec_field("logs"@) matches Some(JsonValue::Array(l)) && is_text_list(l, logs@)
        },
        KnotEvent::KnotDeleted { knot_id } => v.spec_object_len() == Some(1nat)
            && v.spec_text_field("knot_id"@) == Some(uuid_text(knot_id)),
        KnotEvent::GraphRefresh => v == JsonValue::Object(JsonFields::Nil),
    }
}

/// A JSON array of the given strings.
pub fn text_list(logs: &Vec<String>) -> (l: JsonList)
    ensures
        is_text_list(l, logs@),
{
    let mut acc = JsonList::Nil;
    let mut i: usize = logs.len();
    while i > 0
        invariant
            i <= logs@.len(),
            is_text_list(acc, logs@.subrange(i as int, logs@.len() as int)),
        decreases i,
    {
        i = i - 1;
        let ghost old_items = acc.spec_items();
        acc = JsonList::Cons(Box::new(JsonValue::Text(logs[i].clone())), Box::new(acc));
        proof {
            let sub = logs@.subrange(i as int, logs@.len() as int);
            assert(acc.spec_items() == seq![JsonValue::Text(logs@[i as int])] + old_items);
            assert forall|j: int| 0 <= j < sub.len() implies (#[trigger] acc.spec_items()[j]).spec_text() == Some(sub[j]@) by {
                if j > 0 {
                    assert(acc.spec_items()[j] == old_items[j - 1]);
                    assert(sub[j] == logs@.subrange(i + 1, logs@.len() as int)[j - 1]);
                }
            }
        }
    }
    proof {
        assert(logs@.subrange(0, logs@.len() as int) =~= logs@);
    }
    acc
}

/// Maps an event to its envelope: the variant name and a flat JSON object
/// with the variant's data (identities as UUID text).
pub fn event_to_envelope(event: &KnotEvent) -> (env: EventEnvelope)
    ensures
        env.event_type@ == event_type_name(*event),
        is_event_payload(*event, env.payload),
{
    proof {
        reveal_strlit("knot_id");
        reveal_strlit("target_id");
        reveal_strlit("packet");
        reveal_strlit("reason");
        reveal_strlit("property");
        reveal_strlit("value");
        reveal_strlit("engine_name");
        reveal_strlit("logs");
        assert("knot_id"@.len() == 7 && "property"@.len() == 8 && "value"@.len() == 5);
        assert("engine_name"@.len() == 11 && "logs"@.len() == 4);
        assert("target_id"@.len() == 9 && "packet"@.len() == 6 && "reason"@.len() == 6);
        assert("reason"@[0] != "packet"@[0]);
    }
    match event {
        KnotEvent::Started { knot_id } => EventEnvelope {
            event_type: "Started".to_owned(),
            payload: JsonValue::Object(field("knot_id", JsonValue::Text(id_to_string(*knot_id)), JsonFields::Nil)),
        },
        KnotEvent::Stopped { knot_id } => EventEnvelope {
            event_type: "Stopped".to_owned(),
            payload: JsonValue::Object(field("knot_id", JsonValue::Text(id_to_string(*knot_id)), JsonFields::Nil)),
        },
        KnotEvent::PacketReceived { packet } => EventEnvelope {
            event_type: "PacketReceived".to_owned(),
            payload: packet.to_json(),
        },
        KnotEvent::PacketForwardedDown { target_id, packet } => {
            let f = field("packet", packet.to_json(), JsonFields::Nil);
            let f = field("target_id", JsonValue::Text(id_to_string(*target_id)), f);
            EventEnvelope { event_type: "PacketForwardedDown".to_owned(), payload: JsonValue::Object(f) }
        },
        KnotEvent::PacketForwardedUp { packet } => EventEnvelope {
            event_type: "PacketForwardedUp".to_owned(),
            payload: packet.to_json(),
        },
        KnotEvent::DeadLetter { packet, reason } => {
            let f = field("packet", packet.to_json(), JsonFields::Nil);
            let f = field("reason", JsonValue::Text(reason.to_text()), f);
            EventEnvelope { event_type: "DeadLetter".to_owned(), payload: JsonValue::Object(f) }
        },
        KnotEvent::ObjectStateChanged { knot_id, property, value } => {
            let f = field("value", clone_value(value), JsonFields::Nil);
            let f = field("property", JsonValue::Text(property.clone()), f);
            let f = field("knot_id", JsonValue::Text(id_to_string(*knot_id)), f);
            EventEnvelope { event_type: "ObjectStateChanged".to_owned(), payload: JsonValue::Object(f) }
        },
        KnotEvent::ActionExecuted { knot_id, engine_name, logs } => {
            let f = field("logs", JsonValue::Array(text_list(logs)), JsonFields::Nil);
            let f = field("engine_name", JsonValue::Text(engine_name.clone()), f);
            let f = field("knot_id", JsonValue::Text(id_to_string(*knot_id)), f);
            EventEnvelope { event_type: "ActionExecuted".to_owned(), payload: JsonValue::Object(f) }
        },
        KnotEvent::KnotDeleted { knot_id } => EventEnvelope {
            event_type: "KnotDeleted".to_owned(),
            payload: JsonValue::Object(field("knot_id", JsonValue::Text(id_to_string(*knot_id)), JsonFields::Nil)),
        },
        KnotEvent::GraphRefresh => EventEnvelope {
            event_type: "GraphRefresh".to_owned(),
            payload: JsonValue::Object(JsonFields::Nil),
        },
    }
}

/// The one-line human-readable description of an event.
pub open spec fn event_text(e: KnotEvent) -> Seq<char> {
    match e {
        KnotEvent::Started { knot_id } => "["@ + uuid_text(knot_id) + "] started"@,
        KnotEvent::Stopped { knot_id } => "["@ + uuid_text(knot_id) + "] stopped"@,
        KnotEvent::PacketReceived { packet } =>
            "["@ + uuid_text(packet.target_id) + "] received packet from "@ + uuid_text(packet.sender_id),
        KnotEvent::PacketForwardedDown { target_id, packet } =>
            "["@ + uuid_text(packet.sender_id) + "] forwarded ↓ to child "@ + uuid_text(target_id),
        KnotEvent::PacketForwardedUp { packet } => "["@ + uuid_text(packet.sender_id) + "] forwarded ↑ to parent"@,
        KnotEvent::DeadLetter { packet, reason } =>
            "["@ + uuid_text(packet.sender_id) + "→"@ + uuid_text(packet.target_id) + "] dead-letter: "@ + reason.spec_text(),
        KnotEvent::ObjectStateChanged { knot_id, property, value } =>
            "["@ + uuid_text(knot_id) + "] state changed: "@ + property@ + " = "@ + json_text(value),
        KnotEvent::ActionExecuted { knot_id, engine_name, logs } =>
            "["@ + uuid_text(knot_id) + "] action executed by "@ + engine_name@ + " ("@ + decimal(logs@.len())
                + " log lines)"@,
        KnotEvent::KnotDeleted { knot_id } => "[graph] knot deleted: "@ + uuid_text(knot_id),
        KnotEvent::GraphRefresh => "[graph] topology refresh requested"@,
    }
}

impl KnotEvent {
    /// A one-line human-readable description, for logs and consoles.
    pub fn describe(&self) -> (s: String)
        ensures
            s@ == event_text(*self),
    {
        let mut out: Vec<char> = Vec::new();
        match self {
            KnotEvent::Started { knot_id } => {
                push_str(&mut out, "[");
                push_str(&mut out, id_to_string(*knot_id).as_str());
                push_str(&mut out, "] started");
            },
            KnotEvent::Stopped { knot_id } => {
                push_str(&mut out, "[");
                push_str(&mut out, id_to_string(*knot_id).as_str());
                push_str(&mut out, "] stopped");
            },
            KnotEvent::PacketReceived { packet } => {
                push_str(&mut out, "[");
                push_str(&mut out, id_to_string(packet.target_id).as_str());
                push_str(&mut out, "] received packet from ");
                push_str(&mut out, id_to_string(packet.sender_id).as_str());
            },
            KnotEvent::PacketForwardedDown { target_id, packet } => {
                push_str(&mut out, "[");
                push_str(&mut out, id_to_string(packet.sender_id).as_str());
                push_str(&mut out, "] forwarded ↓ to child ");
                push_str(&mut out, id_to_string(*target_id).as_str());
            },
            KnotEvent::PacketForwardedUp { packet } => {
                push_str(&mut out, "[");
                push_str(&mut out, id_to_string(packet.sender_id).as_str());
                push_str(&mut out, "] forwarded ↑ to parent");
            },
            KnotEvent::DeadLetter { packet, reason } => {
                push_str(&mut out, "[");
                push_str(&mut out, id_to_string(packet.sender_id).as_str());
                push_str(&mut out, "→");
                push_str(&mut out, id_to_string(packet.target_id).as_str());
                push_str(&mut out, "] dead-letter: ");
                push_str(&mut out, reason.to_text().as_str());
            },
            KnotEvent::ObjectStateChanged { knot_id, property, value } => {
                push_str(&mut out, "[");
                push_str(&mut out, id_to_string(*knot_id).as_str());
                push_str(&mut out, "] state changed: ");
                push_str(&mut out, property.as_str());
                push_str(&mut out, " = ");
                push_json(&mut out, value);
            },
            KnotEvent::ActionExecuted { knot_id, engine_name, logs } => {
                push_str(&mut out, "[");
                push_str(&mut out, id_to_string(*knot_id).as_str());
                push_str(&mut out, "] action executed by ");
                push_str(&mut out, engine_name.as_str());
                push_str(&mut out, " (");
                push_decimal(&mut out, logs.len() as u64);
                push_str(&mut out, " log lines)");
            },
            KnotEvent::KnotDeleted { knot_id } => {
                push_str(&mut out, "[graph] knot deleted: ");
                push_str(&mut out, id_to_string(*knot_id).as_str());
            },
            KnotEvent::GraphRefresh => {
                push_str(&mut out, "[graph] topology refresh requested");
            },
        }
        proof { assert(out@ =~= event_text(*self)); }
        string_of(&out)
    }
}

/// Counts of routing, state-change and dead-letter events seen in a phase.
#[derive(Debug, Clone, Copy, PartialEq, Eq)]
pub struct EventTally {
    /// Packets forwarded down or up.
    pub routing: u32,
    /// Object state changes and action executions.
    pub state: u32,
    /// Dead letters.
    pub dead: u32,
}

/// Which tally an event counts towards.
#[derive(Debug, Clone, Copy, PartialEq, Eq)]
pub enum EventClass {
    Routing,
    StateChange,
    Dead,
    Other,
}

/// The tally an event counts towards.
pub open spec fn event_class(e: KnotEvent) -> EventClass {
    match e {
        KnotEvent::PacketForwardedDown { .. } | KnotEvent::PacketForwardedUp { .. } => EventClass::Routing,
        KnotEvent::ObjectStateChanged { .. } | KnotEvent::ActionExecuted { .. } => EventClass::StateChange,
        KnotEvent::DeadLetter { .. } => EventClass::Dead,
        _ => EventClass::Other,
    }
}

/// The phase summary line for a tally.
pub open spec fn tally_text(t: EventTally, phase: Seq<char>) -> Seq<char> {
    "  ["@ + phase + "] events: "@ + decimal(t.routing as nat) + " routing, "@ + decimal(t.state as nat)
        + " state-change, "@ + decimal(t.dead as nat) + " dead-letter"@
}

impl EventTally {
    /// A tally with every count at zero.
    pub fn new() -> (t: Self)
        ensures
            t == (EventTally { routing: 0, state: 0, dead: 0 }),
    {
        EventTally { routing: 0, state: 0, dead: 0 }
    }

    /// The class of an event.
    pub fn classify(e: &KnotEvent) -> (c: EventClass)
        ensures
            c == event_class(*e),
    {
        match e {
            KnotEvent::PacketForwardedDown { .. } | KnotEvent::PacketForwardedUp { .. } => EventClass::Routing,
            KnotEvent::ObjectStateChanged { .. } | KnotEvent::ActionExecuted { .. } => EventClass::StateChange,
            KnotEvent::DeadLetter { .. } => EventClass::Dead,
            _ => EventClass::Other,
        }
    }

    /// Counts one event.
    pub fn record(&mut self, e: &KnotEvent)
        requires
            event_class(*e) == EventClass::Routing ==> old(self).routing < u32::MAX,
            event_class(*e) == EventClass::StateChange ==> old(self).state < u32::MAX,
            event_class(*e) == EventClass::Dead ==> old(self).dead < u32::MAX,
        ensures
            *final(self) == match event_class(*e) {
                EventClass::Routing => EventTally { routing: (old(self).routing + 1) as u32, ..*old(self) },
                EventClass::StateChange => EventTally { state: (old(self).state + 1) as u32, ..*old(self) },
                EventClass::Dead => EventTally { dead: (old(self).dead + 1) as u32, ..*old(self) },
                EventClass::Other => *old(self),
            },
    {
        match Self::classify(e) {
            EventClass::Routing => self.routing = self.routing + 1,
            EventClass::StateChange => self.state = self.state + 1,
            EventClass::Dead => self.dead = self.dead + 1,
            EventClass::Other => {},
        }
    }

    /// The summary line for `phase`, when anything was counted.
    pub fn summary(&self, phase: &str) -> (r: Option<String>)
        requires
            self.routing + self.state + self.dead <= u32::MAX,
        ensures
            self.routing + self.state + self.dead == 0 ==> r is None,
            self.routing + self.state + self.dead > 0 ==> (r matches Some(s) && s@ == tally_text(*self, phase@)),
    {
        if self.routing + self.state + self.dead > 0 {
            let mut out: Vec<char> = Vec::new();
            push_str(&mut out, "  [");
            push_str(&mut out, phase);
            push_str(&mut out, "] events: ");
            push_decimal(&mut out, self.routing as u64);
            push_str(&mut out, " routing, ");
            push_decimal(&mut out, self.state as u64);
            push_str(&mut out, " state-change, ");
            push_decimal(&mut out, self.dead as u64);
            push_str(&mut out, " dead-letter");
            proof { assert(out@ =~= tally_text(*self, phase@)); }
            Some(string_of(&out))
        } else {
            None
        }
    }
}

} // verus!
