//! The packet protocol of Object Knots.
//!
//! An Object Knot keeps a property map and answers packets whose payload
//! field `op` names an operation:
//!
//! | `op`       | effect                          | reply `op`         |
//! |------------|---------------------------------|--------------------|
//! | `get`      | read one property               | `get_response`     |
//! | `set`      | write one property              | `set_ack`          |
//! | `set_many` | write several properties        | `set_many_ack`     |
//! | `get_all`  | read all properties             | `get_all_response` |
//!
//! Every write is reported as an `ObjectStateChanged` event and, when the
//! Knot is attached to a registry, mirrored into the registry's state.

use vstd::prelude::*;
use crate::action::{REPLY_TTL_MS, is_reply};
use crate::event::KnotEvent;
use crate::json::{JsonValue, JsonNumber, JsonFields, clone_value, field};
use crate::packet::Packet;
use crate::state::PropertyMap;
use crate::assoc::pairs_map;

verus! {

/// A step a Knot asks its runtime to carry out, in order.
#[derive(Debug)]
pub enum KnotEffect {
    /// Publish an event on the Knot's event bus.
    Emit(KnotEvent),
    /// Mirror a property write into the registry's state of `knot_id`.
    SyncState { knot_id: u128, property: String, value: JsonValue },
    /// Push a packet into the inbox of child `child_id`.
    PushChild { child_id: u128, packet: Packet },
    /// Push a packet into the parent's inbox.
    PushParent { packet: Packet },
    /// Push a packet into the Knot's own inbox, to be routed from there.
    PushSelf { packet: Packet },
}

/// The operation a payload names: its `op` text, or empty when absent.
pub open spec fn op_of(payload: JsonValue) -> Seq<char> {
    match payload.spec_text_field("op"@) {
        Some(s) => s,
        None => Seq::empty(),
    }
}

/// A `get_response` payload for property `name` with `value`.
pub open spec fn is_get_response(v: JsonValue, name: Seq<char>, value: JsonValue) -> bool {
    &&& v.spec_object_len() == Some(3nat)
    &&& v.spec_text_field("op"@) == Some("get_response"@)
    &&& v.spec_text_field("property"@) == Some(name)
    &&& v.spec_field("value"@) == Some(value)
}

/// A `set_ack` payload for property `name`.
pub open spec fn is_set_ack(v: JsonValue, name: Seq<char>) -> bool {
    &&& v.spec_object_len() == Some(2nat)
    &&& v.spec_text_field("op"@) == Some("set_ack"@)
    &&& v.spec_text_field("property"@) == Some(name)
}

/// A `set_many_ack` payload reporting `count` written properties.
pub open spec fn is_set_many_ack(v: JsonValue, count: nat) -> bool {
    &&& v.spec_object_len() == Some(2nat)
    &&& v.spec_text_field("op"@) == Some("set_many_ack"@)
    &&& v.spec_field("count"@) == Some(JsonValue::Number(JsonNumber::PosInt(
            if count <= u64::MAX { count as u64 } else { u64::MAX })))
}

/// The (name, value) pairs of a property map, in its iteration order.
pub open spec fn state_pairs(m: PropertyMap) -> Seq<(Seq<char>, JsonValue)> {
    Seq::new(m.items().len(), |i: int| (m.items()[i].0@, m.items()[i].1))
}

/// A `get_all_response` payload listing `pairs`.
pub open spec fn is_get_all_response(v: JsonValue, pairs: Seq<(Seq<char>, JsonValue)>) -> bool {
    &&& v.spec_object_len() == Some(2nat)
    &&& v.spec_text_field("op"@) == Some("get_all_response"@)
    &&& v.spec_field("properties"@) matches Some(JsonValue::Object(f)) && f.spec_pairs() == pairs
}

/// `m` after writing the pairs in order.
pub open spec fn apply_pairs(m: Map<Seq<char>, JsonValue>, pairs: Seq<(Seq<char>, JsonValue)>) -> Map<Seq<char>, JsonValue>
    decreases pairs.len(),
{
    if pairs.len() == 0 {
        m
    } else {
        apply_pairs(m, pairs.drop_last()).insert(pairs.last().0, pairs.last().1)
    }
}

/// `e` publishes that property `name` of `knot_id` became `value`.
pub open spec fn is_change_event(e: KnotEffect, knot_id: u128, name: Seq<char>, value: JsonValue) -> bool {
    e matches KnotEffect::Emit(KnotEvent::ObjectStateChanged { knot_id: k, property: p, value: v })
        && k == knot_id && p@ == name && v == value
}

/// `e` mirrors the write of `value` to property `name` of `knot_id`.
pub open spec fn is_sync(e: KnotEffect, knot_id: u128, name: Seq<char>, value: JsonValue) -> bool {
    e matches KnotEffect::SyncState { knot_id: k, property: p, value: v }
        && k == knot_id && p@ == name && v == value
}

/// The effects reporting one write: the registry mirror (when `sync`),
/// then the change event.
pub open spec fn is_write_report(effs: Seq<KnotEffect>, knot_id: u128, name: Seq<char>, value: JsonValue, sync: bool) -> bool {
    if sync {
        effs.len() == 2 && is_sync(effs[0], knot_id, name, value) && is_change_event(effs[1], knot_id, name, value)
    } else {
        effs.len() == 1 && is_change_event(effs[0], knot_id, name, value)
    }
}

/// Number of effects that report one write.
pub open spec fn report_len(sync: bool) -> int {
    if sync { 2 } else { 1 }
}

/// The effects reporting the writes of `pairs`, one report per pair in order.
pub open spec fn is_writes_report(effs: Seq<KnotEffect>, knot_id: u128, pairs: Seq<(Seq<char>, JsonValue)>, sync: bool) -> bool {
    &&& effs.len() == pairs.len() * report_len(sync)
    &&& forall|i: int| 0 <= i < pairs.len() ==> is_write_report(
            #[trigger] effs.subrange(i * report_len(sync), (i + 1) * report_len(sync)),
            knot_id, pairs[i].0, pairs[i].1, sync)
}

/// `e` pushes a reply from `knot_id` to the sender of `incoming` into the
/// Knot's own inbox.
pub open spec fn is_self_reply(e: KnotEffect, knot_id: u128, incoming: Packet) -> bool {
    e matches KnotEffect::PushSelf { packet: r } && is_reply(r, knot_id, incoming)
}

/// The reply packet carried by a `PushSelf` effect.
pub open spec fn pushed(e: KnotEffect) -> Packet {
    match e {
        KnotEffect::PushSelf { packet } => packet,
        KnotEffect::PushChild { packet, .. } => packet,
        KnotEffect::PushParent { packet } => packet,
        _ => arbitrary(),
    }
}

/// What an Object Knot with state `before` does with `packet`: its state
/// afterwards and the effects, as a predicate.
pub open spec fn object_outcome(
    before: PropertyMap,
    after: Map<Seq<char>, JsonValue>,
    knot_id: u128,
    packet: Packet,
    sync: bool,
    effs: Seq<KnotEffect>,
) -> bool {
    let p = packet.payload;
    let op = op_of(p);
    if op == "get"@ {
        &&& after == before@
        &&& match p.spec_text_field("property"@) {
            None => effs.len() == 0,
            Some(name) => {
                &&& effs.len() == 1
                &&& is_self_reply(effs[0], knot_id, packet)
                &&& is_get_response(pushed(effs[0]).payload, name,
                        if before@.contains_key(name) { before@[name] } else { JsonValue::Null })
            },
        }
    } else if op == "set"@ {
        match (p.spec_text_field("property"@), p.spec_field("value"@)) {
            (Some(name), Some(value)) => {
                &&& after == before@.insert(name, value)
                &&& effs.len() == report_len(sync) + 1
                &&& is_write_report(effs.take(report_len(sync)), knot_id, name, value, sync)
                &&& is_self_reply(effs.last(), knot_id, packet)
                &&& is_set_ack(pushed(effs.last()).payload, name)
            },
            _ => after == before@ && effs.len() == 0,
        }
    } else if op == "set_many"@ {
        match p.spec_field("properties"@) {
            Some(JsonValue::Object(f)) => {
                &&& after == apply_pairs(before@, f.spec_pairs())
                &&& effs.len() >= 1
                &&& is_writes_report(effs.drop_last(), knot_id, f.spec_pairs(), sync)
                &&& is_self_reply(effs.last(), knot_id, packet)
                &&& is_set_many_ack(pushed(effs.last()).payload, f.spec_pairs().len())
            },
            _ => after == before@ && effs.len() == 0,
        }
    } else if op == "get_all"@ {
        &&& after == before@
        &&& effs.len() == 1
        &&& is_self_reply(effs[0], knot_id, packet)
        &&& is_get_all_response(pushed(effs[0]).payload, state_pairs(before))
    } else {
        after == before@ && effs.len() == 0
    }
}

proof fn lemma_op_keys()
    ensures
        "op"@.len() == 2, "property"@.len() == 8, "value"@.len() == 5, "count"@.len() == 5,
        "properties"@.len() == 10,
        "op"@ != "property"@, "op"@ != "value"@, "property"@ != "value"@, "op"@ != "count"@,
        "op"@ != "properties"@,
{
    reveal_strlit("op");
    reveal_strlit("property");
    reveal_strlit("value");
    reveal_strlit("count");
    reveal_strlit("properties");
    assert("op"@.len() == 2);
    assert("property"@.len() == 8);
    assert("value"@.len() == 5);
    assert("count"@.len() == 5);
    assert("properties"@.len() == 10);
    assert("property"@[0] != "value"@[0]);
}

/// The `get_response` payload `{op, property, value}`.
pub fn get_response_payload(name: &String, value: JsonValue) -> (v: JsonValue)
    ensures
        is_get_response(v, name@, value),
{
    proof { lemma_op_keys(); }
    let f = field("value", value, JsonFields::Nil);
    let f = field("property", JsonValue::Text(name.clone()), f);
    let f = field("op", JsonValue::text("get_response"), f);
    JsonValue::Object(f)
}

/// The `set_ack` payload `{op, property}`.
pub fn set_ack_payload(name: &String) -> (v: JsonValue)
    ensures
        is_set_ack(v, name@),
{
    proof { lemma_op_keys(); }
    let f = field("property", JsonValue::Text(name.clone()), JsonFields::Nil);
    let f = field("op", JsonValue::text("set_ack"), f);
    JsonValue::Object(f)
}

/// The `set_many_ack` payload `{op, count}`.
pub fn set_many_ack_payload(count: u64) -> (v: JsonValue)
    ensures
        is_set_many_ack(v, count as nat),
{
    proof { lemma_op_keys(); }
    let f = field("count", JsonValue::uint(count), JsonFields::Nil);
    let f = field("op", JsonValue::text("set_many_ack"), f);
    JsonValue::Object(f)
}

/// The fields of an object listing the pairs of `m` in order.
pub fn state_fields(m: &PropertyMap) -> (f: JsonFields)
    ensures
        f.spec_pairs() == state_pairs(*m),
{
    let mut f = JsonFields::Nil;
    let mut i: usize = m.len();
    while i > 0
        invariant
            i <= m.items().len(),
            f.spec_pairs() == state_pairs(*m).subrange(i as int, m.items().len() as int),
        decreases i,
    {
        i = i - 1;
        let ghost old_pairs = f.spec_pairs();
        let k = m.key_at(i).clone();
        let v = clone_value(m.value_at(i));
        f = JsonFields::Cons(k, Box::new(v), Box::new(f));
        proof {
            assert(f.spec_pairs() =~= state_pairs(*m).subrange(i as int, m.items().len() as int));
        }
    }
    proof {
        assert(state_pairs(*m).subrange(0, m.items().len() as int) =~= state_pairs(*m));
    }
    f
}

/// The `get_all_response` payload listing the pairs of `m`.
pub fn get_all_payload(m: &PropertyMap) -> (v: JsonValue)
    ensures
        is_get_all_response(v, state_pairs(*m)),
{
    proof {
        lemma_op_keys();
    }
    let f = field("properties", JsonValue::Object(state_fields(m)), JsonFields::Nil);
    let f = field("op", JsonValue::text("get_all_response"), f);
    JsonValue::Object(f)
}

/// Writes one property and appends the report of the write.
fn write_property(
    state: &mut PropertyMap,
    knot_id: u128,
    name: &String,
    value: &JsonValue,
    sync: bool,
    effects: &mut Vec<KnotEffect>,
)
    ensures
        final(state)@ == old(state)@.insert(name@, *value),
        final(effects)@.len() == old(effects)@.len() + report_len(sync),
        final(effects)@.take(old(effects)@.len() as int) == old(effects)@,
        is_write_report(final(effects)@.skip(old(effects)@.len() as int), knot_id, name@, *value, sync),
{
    state.insert(name.clone(), clone_value(value));
    if sync {
        effects.push(KnotEffect::SyncState { knot_id, property: name.clone(), value: clone_value(value) });
    }
    effects.push(KnotEffect::Emit(KnotEvent::ObjectStateChanged {
        knot_id,
        property: name.clone(),
        value: clone_value(value),
    }));
    proof {
        let n = old(effects)@.len() as int;
        assert(effects@.take(n) =~= old(effects)@);
    }
}

/// Splitting an extended sequence at a point inside its old part.
proof fn lemma_seq_split<A>(a: Seq<A>, b: Seq<A>, start: int)
    requires
        0 <= start <= a.len() <= b.len(),
        b.take(a.len() as int) == a,
    ensures
        b.skip(start) == a.skip(start) + b.skip(a.len() as int),
        b.take(start) == a.take(start),
{
    assert forall|j: int| 0 <= j < b.len() - start implies #[trigger] b.skip(start)[j]
        == (a.skip(start) + b.skip(a.len() as int))[j] by {
        if start + j < a.len() {
            assert(b.take(a.len() as int)[start + j] == b[start + j]);
        }
    }
    assert(b.skip(start) =~= a.skip(start) + b.skip(a.len() as int));
    assert forall|j: int| 0 <= j < start implies #[trigger] b.take(start)[j] == a.take(start)[j] by {
        assert(b.take(a.len() as int)[j] == b[j]);
    }
    assert(b.take(start) =~= a.take(start));
}

/// A report of the writes of `pairs.push(last)` is a report of the writes
/// of `pairs` followed by the report of `last`.
proof fn lemma_writes_report_push(
    effs: Seq<KnotEffect>,
    more: Seq<KnotEffect>,
    knot_id: u128,
    pairs: Seq<(Seq<char>, JsonValue)>,
    last: (Seq<char>, JsonValue),
    sync: bool,
)
    requires
        is_writes_report(effs, knot_id, pairs, sync),
        is_write_report(more, knot_id, last.0, last.1, sync),
    ensures
        is_writes_report(effs + more, knot_id, pairs.push(last), sync),
{
    let all = effs + more;
    let ps = pairs.push(last);
    let k = report_len(sync);
    let n = pairs.len() as int;
    if sync {
        assert(all.len() == ps.len() * 2);
        assert forall|i: int| 0 <= i < ps.len() implies is_write_report(
            #[trigger] all.subrange(i * report_len(sync), (i + 1) * report_len(sync)), knot_id, ps[i].0, ps[i].1, sync) by {
            if i < n {
                assert(all.subrange(i * 2, (i + 1) * 2) =~= effs.subrange(i * 2, (i + 1) * 2));
                assert(is_write_report(effs.subrange(i * report_len(sync), (i + 1) * report_len(sync)), knot_id, pairs[i].0, pairs[i].1, sync));
            } else {
                assert(all.subrange(i * 2, (i + 1) * 2) =~= more);
            }
        }
    } else {
        assert(all.len() == ps.len() * 1);
        assert forall|i: int| 0 <= i < ps.len() implies is_write_report(
            #[trigger] all.subrange(i * report_len(sync), (i + 1) * report_len(sync)), knot_id, ps[i].0, ps[i].1, sync) by {
            if i < n {
                assert(all.subrange(i, i + 1) =~= effs.subrange(i, i + 1));
                assert(is_write_report(effs.subrange(i * report_len(sync), (i + 1) * report_len(sync)), knot_id, pairs[i].0, pairs[i].1, sync));
            } else {
                assert(all.subrange(i, i + 1) =~= more);
            }
        }
    }
}

/// Writes every field of `fields` in order and appends their reports;
/// returns how many fields were written (saturating at `u64::MAX`).
fn write_fields(
    state: &mut PropertyMap,
    knot_id: u128,
    fields: &JsonFields,
    sync: bool,
    effects: &mut Vec<KnotEffect>,
) -> (count: u64)
    ensures
        final(state)@ == apply_pairs(old(state)@, fields.spec_pairs()),
        final(effects)@.take(old(effects)@.len() as int) == old(effects)@,
        is_writes_report(final(effects)@.skip(old(effects)@.len() as int), knot_id, fields.spec_pairs(), sync),
        count == if fields.spec_pairs().len() <= u64::MAX { fields.spec_pairs().len() as u64 } else { u64::MAX },
{
    let ghost pairs = fields.spec_pairs();
    let ghost start = old(effects)@.len() as int;
    let ghost before = old(state)@;
    let mut cur: &JsonFields = fields;
    let mut count: u64 = 0;
    let ghost mut i: int = 0;
    proof {
        assert(pairs.take(0) =~= Seq::<(Seq<char>, JsonValue)>::empty());
        assert(effects@.skip(start) =~= Seq::<KnotEffect>::empty());
        assert(pairs.skip(0) =~= pairs);
    }
    loop
        invariant
            0 <= i <= pairs.len(),
            cur.spec_pairs() == pairs.skip(i),
            state@ == apply_pairs(before, pairs.take(i)),
            start == old(effects)@.len(),
            start <= effects@.len(),
            effects@.take(start) == old(effects)@,
            is_writes_report(effects@.skip(start), knot_id, pairs.take(i), sync),
            count == if i <= u64::MAX { i as u64 } else { u64::MAX },
        ensures
            i == pairs.len(),
        decreases pairs.len() - i,
    {
        match cur {
            JsonFields::Nil => {
                proof {
                    assert(pairs.skip(i).len() == 0);
                }
                break;
            },
            JsonFields::Cons(k, v, rest) => {
                let ghost effs_before = effects@;
                proof {
                    assert(cur.spec_pairs() == seq![(k@, **v)] + rest.spec_pairs());
                    assert(pairs.skip(i).len() > 0);
                    assert(pairs.skip(i)[0] == (k@, **v));
                    assert(pairs[i] == (k@, **v));
                }
                write_property(state, knot_id, k, v, sync, effects);
                proof {
                    assert(pairs.take(i + 1) == pairs.take(i).push(pairs[i]));
                    assert(pairs.take(i + 1).drop_last() == pairs.take(i));
                    assert(0 <= start);
                    assert(start <= effs_before.len());
                    assert(effs_before.len() <= effects@.len());
                    assert(effects@.take(effs_before.len() as int) == effs_before);
                    lemma_seq_split(effs_before, effects@, start);
                    lemma_writes_report_push(effs_before.skip(start), effects@.skip(effs_before.len() as int),
                        knot_id, pairs.take(i), pairs[i], sync);
                    assert(pairs.skip(i).drop_first() =~= pairs.skip(i + 1));
                    assert((seq![(k@, **v)] + rest.spec_pairs()).drop_first() =~= rest.spec_pairs());
                    assert(rest.spec_pairs() =~= pairs.skip(i + 1));
                    i = i + 1;
                }
                if count < u64::MAX {
                    count = count + 1;
                }
                cur = &**rest;
            },
        }
    }
    proof {
        assert(pairs.take(i) == pairs);
    }
    count
}

/// Carries out the operation `packet` asks of an Object Knot with identity
/// `knot_id` and property map `state`; `sync` says whether the Knot is
/// attached to a registry. Returns the effects in order: write reports,
/// then the reply.
pub fn object_effects(state: &mut PropertyMap, knot_id: u128, packet: &Packet, sync: bool) -> (effects: Vec<KnotEffect>)
    ensures
        object_outcome(*old(state), final(state)@, knot_id, *packet, sync, effects@),
{
    let op = match packet.payload.text_field("op") {
        Some(s) => s,
        None => String::new(),
    };
    let mut effects: Vec<KnotEffect> = Vec::new();
    if op == "get".to_owned() {
        match packet.payload.text_field("property") {
            Some(name) => {
                let value = match state.get(&name) {
                    Some(v) => clone_value(v),
                    None => JsonValue::Null,
                };
                let reply = Packet::new(knot_id, packet.sender_id, packet.priority, REPLY_TTL_MS,
                    get_response_payload(&name, value));
                effects.push(KnotEffect::PushSelf { packet: reply });
            },
            None => {},
        }
    } else if op == "set".to_owned() {
        match (packet.payload.text_field("property"), packet.payload.get("value")) {
            (Some(name), Some(value)) => {
                write_property(state, knot_id, &name, value, sync, &mut effects);
                let reply = Packet::new(knot_id, packet.sender_id, packet.priority, REPLY_TTL_MS,
                    set_ack_payload(&name));
                let ghost reports = effects@;
                effects.push(KnotEffect::PushSelf { packet: reply });
                proof {
                    assert(reports.skip(0) == reports);
                    assert(effects@.take(report_len(sync)) == reports);
                }
            },
            _ => {},
        }
    } else if op == "set_many".to_owned() {
        match packet.payload.get("properties") {
            Some(JsonValue::Object(fields)) => {
                let count = write_fields(state, knot_id, fields, sync, &mut effects);
                let reply = Packet::new(knot_id, packet.sender_id, packet.priority, REPLY_TTL_MS,
                    set_many_ack_payload(count));
                let ghost reports = effects@;
                effects.push(KnotEffect::PushSelf { packet: reply });
                proof {
                    assert(reports.skip(0) == reports);
                    assert(effects@.drop_last() == reports);
                }
            },
            _ => {},
        }
    } else if op == "get_all".to_owned() {
        let reply = Packet::new(knot_id, packet.sender_id, packet.priority, REPLY_TTL_MS, get_all_payload(state));
        effects.push(KnotEffect::PushSelf { packet: reply });
    }
    effects
}

/// Reading a property right after writing it gives back the written value:
/// a `get` handled after a `set` of the same property answers with the value
/// the `set` carried, and leaves the state as the `set` left it.
pub proof fn law_object_get_after_set(
    s0: PropertyMap,
    s1: PropertyMap,
    s2: Map<Seq<char>, JsonValue>,
    knot_id: u128,
    set_packet: Packet,
    get_packet: Packet,
    sync: bool,
    e1: Seq<KnotEffect>,
    e2: Seq<KnotEffect>,
    name: Seq<char>,
    value: JsonValue,
)
    requires
        set_packet.payload.spec_text_field("op"@) == Some("set"@),
        set_packet.payload.spec_text_field("property"@) == Some(name),
        set_packet.payload.spec_field("value"@) == Some(value),
        get_packet.payload.spec_text_field("op"@) == Some("get"@),
        get_packet.payload.spec_text_field("property"@) == Some(name),
        object_outcome(s0, s1@, knot_id, set_packet, sync, e1),
        object_outcome(s1, s2, knot_id, get_packet, sync, e2),
    ensures
        s2 == s1@,
        s1@ == s0@.insert(name, value),
        e2.len() == 1,
        is_self_reply(e2[0], knot_id, get_packet),
        is_get_response(pushed(e2[0]).payload, name, value),
{
    reveal_strlit("set");
    reveal_strlit("get");
    assert("set"@[0] != "get"@[0]);
}

/// The value the last pair named `k` carries, if any pair is named `k`.
pub open spec fn last_write(pairs: Seq<(Seq<char>, JsonValue)>, k: Seq<char>) -> Option<JsonValue>
    decreases pairs.len(),
{
    if pairs.len() == 0 {
        None
    } else if pairs.last().0 == k {
        Some(pairs.last().1)
    } else {
        last_write(pairs.drop_last(), k)
    }
}

proof fn lemma_apply_pairs_at(m: Map<Seq<char>, JsonValue>, pairs: Seq<(Seq<char>, JsonValue)>, k: Seq<char>)
    ensures
        match last_write(pairs, k) {
            Some(v) => apply_pairs(m, pairs).contains_key(k) && apply_pairs(m, pairs)[k] == v,
            None => (apply_pairs(m, pairs).contains_key(k) <==> m.contains_key(k))
                && (m.contains_key(k) ==> apply_pairs(m, pairs)[k] == m[k]),
        },
    decreases pairs.len(),
{
    if pairs.len() > 0 {
        lemma_apply_pairs_at(m, pairs.drop_last(), k);
    }
}

/// A `set_many` leaves every written property with the last value written
/// to it and every other property as it was.
pub proof fn law_object_set_many_writes(
    s0: PropertyMap,
    s1: Map<Seq<char>, JsonValue>,
    knot_id: u128,
    packet: Packet,
    sync: bool,
    effs: Seq<KnotEffect>,
    f: JsonFields,
    k: Seq<char>,
)
    requires
        packet.payload.spec_text_field("op"@) == Some("set_many"@),
        packet.payload.spec_field("properties"@) == Some(JsonValue::Object(f)),
        object_outcome(s0, s1, knot_id, packet, sync, effs),
    ensures
        last_write(f.spec_pairs(), k) matches Some(v) ==> s1.contains_key(k) && s1[k] == v,
        last_write(f.spec_pairs(), k) is None ==> (s1.contains_key(k) <==> s0@.contains_key(k))
            && (s0@.contains_key(k) ==> s1[k] == s0@[k]),
{
    reveal_strlit("set");
    reveal_strlit("get");
    reveal_strlit("set_many");
    assert("set_many"@.len() == 8 && "set"@.len() == 3 && "get"@.len() == 3);
    lemma_apply_pairs_at(s0@, f.spec_pairs(), k);
}

} // verus!
