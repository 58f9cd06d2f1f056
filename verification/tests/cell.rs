use hubflow::cell::{Cell, CellMeta};

#[test]
fn new_cell_has_unique_uuids() {
    let a = Cell::new(1, CellMeta::new("A"));
    let b = Cell::new(2, CellMeta::new("B"));
    assert_ne!(a.id(), b.id(), "every new cell must receive a unique UUID");
}

#[test]
fn local_id_is_preserved() {
    let cell = Cell::new(99, CellMeta::new("Test"));
    assert_eq!(cell.local_id(), 99);
}

#[test]
fn meta_with_description() {
    let meta = CellMeta::with_description("Node", "A processing node");
    assert_eq!(meta.name, "Node");
    assert_eq!(meta.description.as_deref(), Some("A processing node"));
}

#[test]
fn meta_without_description() {
    let meta = CellMeta::new("Bare");
    assert!(meta.description.is_none());
}

#[test]
fn cell_from_parts_preserves_uuid() {
    let id = uuid::Uuid::new_v4().as_u128();
    let cell = Cell::from_parts(id, 7, CellMeta::new("Restored"));
    assert_eq!(cell.id(), id);
}

#[test]
fn cell_ids_are_version_4() {
    let cell = Cell::new(1, CellMeta::new("V4"));
    let u = uuid::Uuid::from_u128(cell.id());
    assert_eq!(u.get_version_num(), 4);
}

#[test]
fn meta_mut_changes_the_name() {
    let mut cell = Cell::new(3, CellMeta::new("Before"));
    cell.meta_mut().name = "After".to_string();
    assert_eq!(cell.meta().name, "After");
}

#[test]
fn display_contains_name_and_ids() {
    let cell = Cell::new(3, CellMeta::new("DisplayCell"));
    let s = cell.describe();
    assert!(s.contains("DisplayCell"));
    assert!(s.contains('3'));
}

#[test]
fn cell_description_is_exact() {
    let cell = Cell::from_parts(1, 42, CellMeta::new("say \"hi\"\n"));
    assert_eq!(
        cell.describe(),
        format!("Cell {{ id: {}, local_id: 42, name: {:?} }}", uuid::Uuid::from_u128(1), "say \"hi\"\n")
    );
}
