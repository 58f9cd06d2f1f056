//! State stores addressed by the `ObjectID.PropertyID` pattern.
//!
//! Volatile state lives in memory for the lifetime of a Knot
//! ([`InMemoryStore`]). Durable state goes to a persistent backend; the
//! default backend ([`NoopPersistentStore`]) keeps nothing.

use vstd::prelude::*;
use vstd::string::*;
use crate::assoc::{AssocMap, KeyEq, keys_distinct, pairs_map, lemma_first_index_none};
use crate::json::{JsonValue, clone_value};
use crate::ids::{id_to_string, uuid_text};

verus! {

/// A property map: property name to JSON value.
pub type PropertyMap = AssocMap<String, JsonValue>;

/// A copy of a property map with the same pairs in the same order.
pub fn clone_property_map(m: &PropertyMap) -> (r: PropertyMap)
    ensures
        r@ == m@,
        r.items() == m.items(),
{
    m.facts();
    let n = m.len();
    let mut r: PropertyMap = AssocMap::new();
    let mut i: usize = 0;
    while i < n
        invariant
            i <= n,
            n == m.items().len(),
            keys_distinct(m.items()),
            r.items() == m.items().take(i as int),
            r@ == pairs_map(r.items()),
        decreases n - i,
    {
        let k = m.key_at(i);
        let v = m.value_at(i);
        proof {
            let t = m.items().take(i as int);
            assert forall|j: int| 0 <= j < t.len() implies t[j].0@ != k@ by {
                assert(t[j] == m.items()[j]);
            }
            lemma_first_index_none(t, k@);
        }
        r.insert(k.clone(), clone_value(v));
        r.facts();
        proof {
            assert(m.items().take(i + 1) == m.items().take(i as int).push(m.items()[i as int]));
        }
        i = i + 1;
    }
    r.facts();
    proof {
        assert(m.items().take(n as int) == m.items());
    }
    r
}

/// Compound key `<object_id>.<property_id>`.
#[derive(Debug, PartialEq, Eq, Hash)]
pub struct StateKey {
    /// Identity of the object that owns the property.
    pub object_id: u128,
    /// Name of the property within the object.
    pub property_id: String,
}

impl View for StateKey {
    type V = (u128, Seq<char>);

    open spec fn view(&self) -> (u128, Seq<char>) {
        (self.object_id, self.property_id@)
    }
}

impl KeyEq for StateKey {
    fn key_eq(&self, other: &Self) -> (r: bool) {
        self.object_id == other.object_id && self.property_id == other.property_id
    }

    fn key_clone(&self) -> (r: Self) {
        StateKey { object_id: self.object_id, property_id: self.property_id.clone() }
    }
}

impl Clone for StateKey {
    fn clone(&self) -> (r: Self)
        ensures
            r == *self,
    {
        StateKey { object_id: self.object_id, property_id: self.property_id.clone() }
    }
}

impl StateKey {
    /// The key of property `property_id` of object `object_id`.
    pub fn new(object_id: u128, property_id: &str) -> (k: Self)
        ensures
            k.object_id == object_id,
            k.property_id@ == property_id@,
    {
        StateKey { object_id, property_id: property_id.to_owned() }
    }

    /// The key as text: the object's UUID, a dot, the property name.
    pub fn to_text(&self) -> (s: String)
        ensures
            s@ == uuid_text(self.object_id) + "."@ + self.property_id@,
    {
        let id = id_to_string(self.object_id);
        let with_dot = id.concat(".");
        with_dot.concat(self.property_id.as_str())
    }
}

/// A synchronous key-value store for volatile Knot state.
pub trait VolatileStore {
    /// The value at `key`, if any.
    fn get(&self, key: &StateKey) -> Option<&JsonValue>;

    /// Inserts or replaces the value at `key`.
    fn set(&mut self, key: StateKey, value: JsonValue);

    /// Removes and returns the value at `key`, if any.
    fn remove(&mut self, key: &StateKey) -> Option<JsonValue>;
}

/// The default volatile store, held in memory.
pub struct InMemoryStore {
    data: AssocMap<StateKey, JsonValue>,
}

impl View for InMemoryStore {
    type V = Map<(u128, Seq<char>), JsonValue>;

    closed spec fn view(&self) -> Map<(u128, Seq<char>), JsonValue> {
        self.data@
    }
}

impl InMemoryStore {
    /// An empty store.
    pub fn new() -> (s: Self)
        ensures
            s@ == Map::<(u128, Seq<char>), JsonValue>::empty(),
    {
        InMemoryStore { data: AssocMap::new() }
    }
}

impl Default for InMemoryStore {
    fn default() -> (s: Self)
        ensures
            s@ == Map::<(u128, Seq<char>), JsonValue>::empty(),
    {
        InMemoryStore::new()
    }
}

impl VolatileStore for InMemoryStore {
    fn get(&self, key: &StateKey) -> (r: Option<&JsonValue>)
        ensures
            r matches Some(v) ==> self@.contains_key(key@) && self@[key@] == *v,
            r is None <==> !self@.contains_key(key@),
    {
        self.data.get(key)
    }

    fn set(&mut self, key: StateKey, value: JsonValue)
        ensures
            final(self)@ == old(self)@.insert(key@, value),
    {
        self.data.insert(key, value);
    }

    fn remove(&mut self, key: &StateKey) -> (r: Option<JsonValue>)
        ensures
            final(self)@ == old(self)@.remove(key@),
            r matches Some(v) ==> old(self)@.contains_key(key@) && old(self)@[key@] == v,
            r is None <==> !old(self)@.contains_key(key@),
    {
        self.data.remove(key)
    }
}

/// A persistent backend that keeps nothing: loads find nothing, saves and
/// deletes have no effect.
#[derive(Debug, Default, Clone, Copy)]
pub struct NoopPersistentStore;

impl NoopPersistentStore {
    /// Finds nothing.
    pub fn load(&self, key: &StateKey) -> (r: Option<JsonValue>)
        ensures
            r is None,
    {
        None
    }

    /// Discards the value.
    pub fn save(&self, key: StateKey, value: JsonValue) {
    }

    /// Has no effect.
    pub fn delete(&self, key: &StateKey) {
    }
}

/// Reading a key back after writing it gives the written value; other keys
/// keep what they held.
pub proof fn law_volatile_read_after_write(
    before: Map<(u128, Seq<char>), JsonValue>,
    after: Map<(u128, Seq<char>), JsonValue>,
    key: (u128, Seq<char>),
    value: JsonValue,
    other: (u128, Seq<char>),
)
    requires
        after == before.insert(key, value),
        other != key,
    ensures
        after.contains_key(key) && after[key] == value,
        after.contains_key(other) == before.contains_key(other),
        before.contains_key(other) ==> after[other] == before[other],
{
}

} // verus!
