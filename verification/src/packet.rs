//! Packets: the unit of data exchanged between Knots.
//!
//! A packet carries its destination and origin, a priority (0 lowest, 255
//! highest), a time-to-live in milliseconds and a JSON payload. Its creation
//! instant is taken from the monotonic clock; a packet has expired once more
//! time than its TTL has elapsed since then.

use vstd::prelude::*;
use std::time::Instant;
use crate::json::{JsonValue, JsonNumber, JsonFields, clone_value, field};
use crate::ids::{id_to_string, uuid_text};

verus! {

/// `std::time::Instant`, carried through as an opaque value.
#[verifier::external_type_specification]
#[verifier::external_body]
pub struct ExInstant(Instant);

/// Reads the monotonic clock with `std::time::Instant::now`.
///
/// The reading depends on the time of the call; nothing is claimed of it.
#[verifier::external_body]
fn instant_now() -> (t: Instant) {
    Instant::now()
}

/// Nanoseconds elapsed since `t`, from `std::time::Instant::elapsed`.
///
/// The reading depends on the time of the call; nothing is claimed of it.
#[verifier::external_body]
fn elapsed_nanos(t: &Instant) -> (n: u128) {
    t.elapsed().as_nanos()
}

/// Nanoseconds in a millisecond.
pub const NANOS_PER_MILLI: u128 = 1_000_000u128;

/// `v` is the JSON form of packet `p`.
pub open spec fn is_packet_json(v: JsonValue, p: Packet) -> bool {
    &&& v.spec_object_len() == Some(5nat)
    &&& v.spec_text_field("target_id"@) == Some(uuid_text(p.target_id))
    &&& v.spec_text_field("sender_id"@) == Some(uuid_text(p.sender_id))
    &&& v.spec_field("priority"@) == Some(JsonValue::Number(JsonNumber::PosInt(p.priority as u64)))
    &&& v.spec_field("ttl"@) == Some(JsonValue::Number(JsonNumber::PosInt(p.ttl_ms)))
    &&& v.spec_field("payload"@) == Some(p.payload)
}

/// A routable message exchanged between Knots.
#[derive(Debug)]
pub struct Packet {
    /// Identity of the destination Knot.
    pub target_id: u128,
    /// Identity of the originating Knot.
    pub sender_id: u128,
    /// Delivery priority: 0 is the lowest, 255 the highest.
    pub priority: u8,
    /// Maximum lifetime in milliseconds.
    pub ttl_ms: u64,
    /// Monotonic creation instant, used for TTL checks.
    pub created_at: Instant,
    /// Arbitrary JSON payload.
    pub payload: JsonValue,
}

impl Packet {
    /// The packet has expired once `elapsed` nanoseconds exceed its TTL.
    pub open spec fn spec_expired_after(&self, elapsed: u128) -> bool {
        elapsed > self.ttl_ms as int * NANOS_PER_MILLI
    }

    /// TTL left after `elapsed` nanoseconds, clamped to zero.
    pub open spec fn spec_remaining_after(&self, elapsed: u128) -> nat {
        if self.spec_expired_after(elapsed) {
            0
        } else {
            (self.ttl_ms as int * NANOS_PER_MILLI - elapsed) as nat
        }
    }

    /// Builds a packet stamped with the current instant.
    pub fn new(sender_id: u128, target_id: u128, priority: u8, ttl_ms: u64, payload: JsonValue) -> (p: Self)
        ensures
            p.sender_id == sender_id,
            p.target_id == target_id,
            p.priority == priority,
            p.ttl_ms == ttl_ms,
            p.payload == payload,
    {
        Packet { target_id, sender_id, priority, ttl_ms, created_at: instant_now(), payload }
    }

    /// Whether the TTL is exceeded after `elapsed` nanoseconds.
    pub fn expired_after(&self, elapsed: u128) -> (b: bool)
        ensures
            b == self.spec_expired_after(elapsed),
    {
        elapsed > self.ttl_ms as u128 * NANOS_PER_MILLI
    }

    /// Nanoseconds of TTL left after `elapsed` nanoseconds, clamped to zero.
    pub fn remaining_after(&self, elapsed: u128) -> (r: u128)
        ensures
            r == self.spec_remaining_after(elapsed),
    {
        let ttl = self.ttl_ms as u128 * NANOS_PER_MILLI;
        if elapsed > ttl { 0 } else { ttl - elapsed }
    }

    /// Nanoseconds elapsed since the packet was created.
    pub fn age_nanos(&self) -> u128 {
        elapsed_nanos(&self.created_at)
    }

    /// Returns `true` if the TTL has elapsed since creation: the answer for
    /// the clock reading taken during the call.
    pub fn is_expired(&self) -> (b: bool)
        ensures
            exists|elapsed: u128| b == self.spec_expired_after(elapsed),
    {
        let elapsed = self.age_nanos();
        self.expired_after(elapsed)
    }

    /// Nanoseconds of TTL left now, clamped to zero once expired: the
    /// answer for the clock reading taken during the call.
    pub fn remaining_ttl(&self) -> (r: u128)
        ensures
            exists|elapsed: u128| r == self.spec_remaining_after(elapsed),
            r <= self.ttl_ms as int * NANOS_PER_MILLI,
    {
        let elapsed = self.age_nanos();
        self.remaining_after(elapsed)
    }

    /// The packet as a JSON object: identities as UUID text, priority, the
    /// TTL in milliseconds under `ttl`, and the payload. The creation instant
    /// is not part of it.
    pub fn to_json(&self) -> (v: JsonValue)
        ensures
            is_packet_json(v, *self),
    {
        proof {
            reveal_strlit("target_id");
            reveal_strlit("sender_id");
            reveal_strlit("priority");
            reveal_strlit("ttl");
            reveal_strlit("payload");
            assert("sender_id"@[0] != "target_id"@[0]);
            assert("priority"@.len() != "target_id"@.len());
            assert("priority"@.len() != "sender_id"@.len());
            assert("payload"@.len() == 7 && "ttl"@.len() == 3 && "priority"@.len() == 8);
            assert("target_id"@.len() == 9 && "sender_id"@.len() == 9);
        }
        let f = field("payload", clone_value(&self.payload), JsonFields::Nil);
        let f = field("ttl", JsonValue::uint(self.ttl_ms), f);
        let f = field("priority", JsonValue::uint(self.priority as u64), f);
        let f = field("sender_id", JsonValue::Text(id_to_string(self.sender_id)), f);
        let f = field("target_id", JsonValue::Text(id_to_string(self.target_id)), f);
        JsonValue::Object(f)
    }
}

impl Clone for Packet {
    fn clone(&self) -> (r: Self)
        ensures
            r == *self,
    {
        Packet {
            target_id: self.target_id,
            sender_id: self.sender_id,
            priority: self.priority,
            ttl_ms: self.ttl_ms,
            created_at: self.created_at,
            payload: clone_value(&self.payload),
        }
    }
}

} // verus!
