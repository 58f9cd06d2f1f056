use hubflow::class::{ClassDefinition, DataType, PropertySchema};
use hubflow::json::JsonValue;
use hubflow::knot::KnotRole;
use hubflow::persistence::{KnotRow, LinkRow, StoredKnot, StoredLink, classes_from_rows, next_local_id, restore_registry, schema_rows};

fn fresh() -> u128 {
    uuid::Uuid::new_v4().as_u128()
}

fn row(id: u128, local_id: u64, name: &str, description: Option<&str>, role: &str, level: u32, parent: Option<u128>, class: Option<u128>) -> KnotRow {
    KnotRow {
        id,
        local_id,
        name: name.to_string(),
        description: description.map(|d| d.to_string()),
        role: role.to_string(),
        level,
        parent_id: parent,
        class_id: class,
    }
}

fn round_trip(r: &KnotRow) -> KnotRow {
    KnotRow::from_stored(r.to_stored())
}

#[test]
fn save_and_load_knot() {
    let id = fresh();
    let r = row(id, 1, "Hub", None, "Hub", 0, None, None);
    let stored = r.to_stored();
    assert_eq!(stored.id, uuid::Uuid::from_u128(id).to_string());
    assert_eq!(stored.local_id, 1);
    assert_eq!(stored.level, 0);
    let back = KnotRow::from_stored(stored);
    assert_eq!(back.id, id);
    assert_eq!(back.local_id, 1);
    assert_eq!(back.name, "Hub");
    assert_eq!(back.description, None);
    assert_eq!(back.role, "Hub");
    assert_eq!(back.level, 0);
    assert!(back.parent_id.is_none());
    assert!(back.class_id.is_none());
}

#[test]
fn save_knot_with_parent_and_class() {
    let parent = fresh();
    let class = fresh();
    let r = row(fresh(), 2, "Sensor01", Some("A sensor"), "Object", 1, Some(parent), Some(class));
    let back = round_trip(&r);
    assert_eq!(back.parent_id, Some(parent));
    assert_eq!(back.class_id, Some(class));
    assert_eq!(back.description.as_deref(), Some("A sensor"));
    assert_eq!(back.role, "Object");
}

#[test]
fn extreme_integers_survive_the_signed_columns() {
    let r = row(fresh(), u64::MAX, "Big", None, "Hub", u32::MAX, None, None);
    let stored = r.to_stored();
    assert_eq!(stored.local_id, -1);
    let back = KnotRow::from_stored(stored);
    assert_eq!(back.local_id, u64::MAX);
    assert_eq!(back.level, u32::MAX);
}

#[test]
fn unparsable_stored_ids_become_nil_or_absent() {
    let stored = StoredKnot {
        id: "not-a-uuid".to_string(),
        local_id: 3,
        name: "Broken".to_string(),
        description: None,
        role: "Hub".to_string(),
        level: 0,
        parent_id: Some("garbage".to_string()),
        class_id: None,
    };
    let back = KnotRow::from_stored(stored);
    assert_eq!(back.id, 0);
    assert_eq!(back.parent_id, None);
}

#[test]
fn save_and_load_link() {
    let (id, s, t) = (fresh(), fresh(), fresh());
    let link = LinkRow { id, source_id: s, target_id: t, link_type: "action_to_object".to_string() };
    let stored = link.to_stored();
    assert_eq!(stored.source_id, uuid::Uuid::from_u128(s).to_string());
    let back = LinkRow::from_stored(stored);
    assert_eq!(back.id, id);
    assert_eq!(back.source_id, s);
    assert_eq!(back.target_id, t);
    assert_eq!(back.link_type, "action_to_object");
    let nil = LinkRow::from_stored(StoredLink {
        id: "x".to_string(),
        source_id: "y".to_string(),
        target_id: "z".to_string(),
        link_type: "data_flow".to_string(),
    });
    assert_eq!((nil.id, nil.source_id, nil.target_id), (0, 0, 0));
}

#[test]
fn save_and_load_class_basic() {
    let class = ClassDefinition::new("Sensor")
        .with_property(PropertySchema::new("temperature", DataType::Number).with_default(JsonValue::float("20.0")))
        .with_property(PropertySchema::new("active", DataType::Boolean));
    let rows = schema_rows(&class);
    assert_eq!(rows.len(), 2);
    let loaded = classes_from_rows(&rows);
    assert_eq!(loaded.len(), 1);
    assert_eq!(loaded[0].id, class.id);
    assert_eq!(loaded[0].name, "(loaded)");
    assert_eq!(loaded[0].properties.len(), 2);
    assert_eq!(loaded[0].properties[0].default_value, Some(JsonValue::float("20.0")));
}

#[test]
fn load_class_property_order_is_stable() {
    let mut class = ClassDefinition::new("Ordered");
    for name in ["alpha", "beta", "gamma", "delta"] {
        class = class.with_property(PropertySchema::new(name, DataType::String));
    }
    let loaded = classes_from_rows(&schema_rows(&class));
    let names: Vec<&str> = loaded[0].properties.iter().map(|p| p.name.as_str()).collect();
    assert_eq!(names, vec!["alpha", "beta", "gamma", "delta"]);
}

#[test]
fn load_class_data_types_round_trip() {
    let class = ClassDefinition::new("Types")
        .with_property(PropertySchema::new("s", DataType::String))
        .with_property(PropertySchema::new("n", DataType::Number))
        .with_property(PropertySchema::new("b", DataType::Boolean))
        .with_property(PropertySchema::new("j", DataType::Json));
    let rows = schema_rows(&class);
    let names: Vec<&str> = rows.iter().map(|r| r.data_type.as_str()).collect();
    assert_eq!(names, vec!["string", "number", "boolean", "json"]);
    let loaded = classes_from_rows(&rows);
    let p = &loaded[0].properties;
    assert_eq!(p[0].data_type, DataType::String);
    assert_eq!(p[1].data_type, DataType::Number);
    assert_eq!(p[2].data_type, DataType::Boolean);
    assert_eq!(p[3].data_type, DataType::Json);
}

#[test]
fn load_class_default_and_unit_round_trip() {
    let class = ClassDefinition::new("Rich").with_property(
        PropertySchema::new("pressure", DataType::Number)
            .with_default(JsonValue::uint(1013))
            .with_unit("hPa")
            .with_description("Atmospheric pressure"),
    );
    let loaded = classes_from_rows(&schema_rows(&class));
    let p = &loaded[0].properties[0];
    assert_eq!(p.default_value, Some(JsonValue::uint(1013)));
    assert_eq!(p.unit.as_deref(), Some("hPa"));
    assert_eq!(p.description.as_deref(), Some("Atmospheric pressure"));
}

#[test]
fn load_classes_returns_multiple_classes() {
    let a = ClassDefinition::new("A").with_property(PropertySchema::new("x", DataType::Number));
    let b = ClassDefinition::new("B")
        .with_property(PropertySchema::new("y", DataType::String))
        .with_property(PropertySchema::new("z", DataType::Boolean));
    let mut rows = schema_rows(&a);
    rows.extend(schema_rows(&b));
    let loaded = classes_from_rows(&rows);
    assert_eq!(loaded.len(), 2);
    assert_eq!(loaded[0].id, a.id);
    assert_eq!(loaded[1].id, b.id);
    assert_eq!(loaded[1].properties.len(), 2);
}

#[test]
fn interleaved_rows_group_by_first_seen_class() {
    let a = ClassDefinition::new("A")
        .with_property(PropertySchema::new("a1", DataType::Number))
        .with_property(PropertySchema::new("a2", DataType::Number));
    let b = ClassDefinition::new("B").with_property(PropertySchema::new("b1", DataType::String));
    let mut ra = schema_rows(&a);
    let rb = schema_rows(&b);
    let second_a = ra.pop().unwrap();
    let mut rows = ra;
    rows.extend(rb);
    rows.push(second_a);
    let loaded = classes_from_rows(&rows);
    assert_eq!(loaded.len(), 2);
    assert_eq!(loaded[0].id, a.id);
    let names: Vec<&str> = loaded[0].properties.iter().map(|p| p.name.as_str()).collect();
    assert_eq!(names, vec!["a1", "a2"]);
    assert_eq!(loaded[1].id, b.id);
}

#[test]
fn schema_rows_number_their_positions() {
    let class = ClassDefinition::new("P")
        .with_property(PropertySchema::new("a", DataType::Number))
        .with_property(PropertySchema::new("b", DataType::Number));
    let rows = schema_rows(&class);
    assert_eq!(rows[0].sort_order, 0);
    assert_eq!(rows[1].sort_order, 1);
    assert_eq!(rows[1].class_id, uuid::Uuid::from_u128(class.id).to_string());
}

#[test]
fn next_local_id_is_above_every_stored_one() {
    assert_eq!(next_local_id(&vec![]), Some(0));
    let rows = vec![
        row(fresh(), 4, "A", None, "Hub", 0, None, None),
        row(fresh(), 9, "B", None, "Hub", 0, None, None),
        row(fresh(), 2, "C", None, "Hub", 0, None, None),
    ];
    assert_eq!(next_local_id(&rows), Some(10));
    let full = vec![row(fresh(), u64::MAX, "Z", None, "Hub", 0, None, None)];
    assert_eq!(next_local_id(&full), None);
}

#[test]
fn restore_rebuilds_entries_and_children() {
    let root = fresh();
    let child = fresh();
    let odd = fresh();
    let rows = vec![
        row(root, 0, "Root", None, "Hub", 0, None, None),
        row(child, 1, "Child", Some("c"), "Object", 1, Some(root), None),
        row(odd, 2, "Odd", None, "Planet", 1, Some(root), None),
    ];
    let reg = restore_registry(&rows);
    assert_eq!(reg.all().len(), 2);
    let r = reg.get(&root).unwrap();
    assert_eq!(r.child_ids, vec![child]);
    let c = reg.get(&child).unwrap();
    assert_eq!(c.role, KnotRole::Object);
    assert_eq!(c.parent_id, Some(root));
    assert_eq!(c.meta.description.as_deref(), Some("c"));
    assert!(reg.get(&odd).is_none());
    assert!(reg.get_state_snapshot(&root).is_none());
}
