use hubflow::json::JsonValue;
use std::collections::HashSet;
use hubflow::state::{InMemoryStore, NoopPersistentStore, StateKey, VolatileStore};

fn key(label: &str) -> StateKey {
    StateKey::new(uuid::Uuid::new_v4().as_u128(), label)
}

#[test]
fn volatile_set_and_get() {
    let mut store = InMemoryStore::default();
    let k = key("speed");
    store.set(k.clone(), JsonValue::uint(42));
    assert_eq!(store.get(&k), Some(&JsonValue::uint(42)));
}

#[test]
fn volatile_remove() {
    let mut store = InMemoryStore::default();
    let k = key("temp");
    store.set(k.clone(), JsonValue::text("hot"));
    let removed = store.remove(&k);
    assert_eq!(removed, Some(JsonValue::text("hot")));
    assert!(store.get(&k).is_none());
}

#[test]
fn state_volatile_get_missing_returns_none() {
    let store = InMemoryStore::default();
    assert!(store.get(&key("missing")).is_none());
}

#[test]
fn state_key_display() {
    let id = uuid::Uuid::new_v4();
    let k = StateKey::new(id.as_u128(), "velocity");
    let s = k.to_text();
    assert!(s.ends_with(".velocity"), "expected '.<property_id>' suffix, got: {s}");
    assert!(s.starts_with(&id.to_string()), "expected '<object_id>.' prefix, got: {s}");
}

#[test]
fn state_key_clone_and_eq() {
    let k1 = key("alpha");
    let k2 = k1.clone();
    assert_eq!(k1, k2);
}

#[test]
fn state_key_hash_consistency() {
    let k = key("beta");
    let mut set = HashSet::new();
    set.insert(k.clone());
    set.insert(k.clone());
    assert_eq!(set.len(), 1);
}

#[test]
fn noop_persistent_store_load_returns_none() {
    let store = NoopPersistentStore;
    let k = key("data");
    assert!(store.load(&k).is_none());
}

#[test]
fn noop_persistent_store_save_is_silent() {
    let store = NoopPersistentStore;
    let k = key("data");
    store.save(k.clone(), JsonValue::object(vec![("x".to_string(), JsonValue::uint(1))]));
    assert!(store.load(&k).is_none());
}

#[test]
fn noop_persistent_store_delete_is_silent() {
    let store = NoopPersistentStore;
    let k = key("data");
    store.delete(&k);
}

#[test]
fn volatile_write_leaves_other_keys() {
    let mut store = InMemoryStore::new();
    let a = key("a");
    let b = key("b");
    store.set(a.clone(), JsonValue::uint(1));
    store.set(b.clone(), JsonValue::uint(2));
    store.set(a.clone(), JsonValue::uint(3));
    assert_eq!(store.get(&a), Some(&JsonValue::uint(3)));
    assert_eq!(store.get(&b), Some(&JsonValue::uint(2)));
}

#[test]
fn state_key_text_is_exact() {
    let k = StateKey::new(0x0123456789abcdef0123456789abcdefu128, "p");
    assert_eq!(k.to_text(), "01234567-89ab-cdef-0123-456789abcdef.p");
}
