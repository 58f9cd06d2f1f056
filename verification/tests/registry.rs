use hubflow::cell::CellMeta;
use hubflow::json::JsonValue;
use hubflow::knot::KnotRole;
use hubflow::registry::{KnotRegistry, RegistryEntry};

fn entry(id: u128) -> RegistryEntry {
    RegistryEntry {
        id,
        local_id: 1,
        meta: CellMeta::new("E"),
        role: KnotRole::Object,
        level: 1,
        parent_id: None,
        class_id: None,
        child_ids: vec![],
    }
}

#[test]
fn get_after_upsert_finds_the_entry() {
    let mut r = KnotRegistry::new();
    r.upsert(entry(1));
    r.upsert(RegistryEntry { level: 4, ..entry(1) });
    let e = r.get(&1).unwrap();
    assert_eq!(e.level, 4);
    assert_eq!(r.all().len(), 1);
}

#[test]
fn remove_forgets_entry_and_state() {
    let mut r = KnotRegistry::new();
    r.upsert(entry(2));
    r.set_state(2, "p".to_string(), JsonValue::Bool(true));
    r.remove(&2);
    assert!(r.get(&2).is_none());
    assert!(r.get_state_snapshot(&2).is_none());
}

#[test]
fn state_writes_accumulate() {
    let mut r = KnotRegistry::new();
    r.set_state(3, "a".to_string(), JsonValue::uint(1));
    r.set_state(3, "b".to_string(), JsonValue::uint(2));
    r.set_state(3, "a".to_string(), JsonValue::uint(5));
    let m = r.get_state_snapshot(&3).unwrap();
    assert_eq!(m.get(&"a".to_string()), Some(&JsonValue::uint(5)));
    assert_eq!(m.get(&"b".to_string()), Some(&JsonValue::uint(2)));
    assert_eq!(m.len(), 2);
}

#[test]
fn children_are_listed_once_and_removed_everywhere() {
    let mut r = KnotRegistry::new();
    r.upsert(entry(10));
    r.upsert(entry(11));
    r.add_child_id(&10, 20);
    r.add_child_id(&10, 20);
    r.add_child_id(&11, 20);
    r.add_child_id(&99, 20);
    assert_eq!(r.get(&10).unwrap().child_ids, vec![20]);
    r.remove_child_id_everywhere(&20);
    assert!(r.get(&10).unwrap().child_ids.is_empty());
    assert!(r.get(&11).unwrap().child_ids.is_empty());
}

#[test]
fn set_parent_and_update_meta() {
    let mut r = KnotRegistry::new();
    r.upsert(entry(5));
    r.set_parent(&5, 6, 2);
    r.update_meta(&5, None, Some("desc".to_string()));
    let e = r.get(&5).unwrap();
    assert_eq!((e.parent_id, e.level), (Some(6), 2));
    assert_eq!(e.meta.name, "E");
    assert_eq!(e.meta.description.as_deref(), Some("desc"));
}

#[test]
fn all_lists_entries_in_insertion_order() {
    let mut r = KnotRegistry::new();
    for id in [7u128, 3, 9] {
        r.upsert(entry(id));
    }
    let ids: Vec<u128> = r.all().iter().map(|e| e.id).collect();
    assert_eq!(ids, vec![7, 3, 9]);
}
