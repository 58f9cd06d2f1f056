//! The `.hflow` workspace format: how Knots, links and class schemas map to
//! the rows of its SQLite tables, and back.
//!
//! Identities are stored as their hyphenated UUID text; integers as SQLite
//! 64-bit integers. A class is stored as one `class_schemas` row per
//! property, with the property's position as its sort order.

use vstd::prelude::*;
use crate::class::{ClassDefinition, DataType, PropertySchema, law_data_type_name_round_trip};
use crate::cell::clone_opt_string;
use crate::class::clone_opt_value;
use crate::ids::{NIL_ID, id_to_string, parse_id, parsed_uuid, uuid_text};
use crate::json::JsonValue;
use crate::cell::CellMeta;
use crate::knot::KnotRole;
use crate::registry::{KnotRegistry, RegistryEntry, EntryView};
use crate::api::with_child;

verus! {

/// A Knot as the workspace file records it.
#[derive(Debug)]
pub struct KnotRow {
    /// System-wide unique identifier.
    pub id: u128,
    /// In-process local identifier.
    pub local_id: u64,
    /// Human-readable name.
    pub name: String,
    /// Optional description.
    pub description: Option<String>,
    /// Role name: `Hub`, `Action`, `Object` or `Class`.
    pub role: String,
    /// Depth in the topology tree.
    pub level: u32,
    /// Parent identity, `None` for a root.
    pub parent_id: Option<u128>,
    /// Class identity, `None` for Knots not made from a class.
    pub class_id: Option<u128>,
}

/// The columns of a `knots` row as SQLite holds them.
#[derive(Debug)]
pub struct StoredKnot {
    pub id: String,
    pub local_id: i64,
    pub name: String,
    pub description: Option<String>,
    pub role: String,
    pub level: i64,
    pub parent_id: Option<String>,
    pub class_id: Option<String>,
}

/// A directed editor link between two Knots.
#[derive(Debug)]
pub struct LinkRow {
    /// Identity of the link.
    pub id: u128,
    /// Source Knot.
    pub source_id: u128,
    /// Target Knot.
    pub target_id: u128,
    /// Semantic type (for example `action_to_object`).
    pub link_type: String,
}

/// The columns of a `links` row as SQLite holds them.
#[derive(Debug)]
pub struct StoredLink {
    pub id: String,
    pub source_id: String,
    pub target_id: String,
    pub link_type: String,
}

/// One `class_schemas` row: a property of a class. The default value is
/// held decoded from the JSON text of its column.
#[derive(Debug)]
pub struct SchemaRow {
    pub class_id: String,
    pub property_name: String,
    pub data_type: String,
    pub default_value: Option<JsonValue>,
    pub unit: Option<String>,
    pub description: Option<String>,
    pub sort_order: i64,
}

/// The identity a stored text denotes; text that is no UUID denotes nil.
pub open spec fn id_or_nil(text: Seq<char>) -> u128 {
    match parsed_uuid(text) {
        Some(v) => v,
        None => NIL_ID,
    }
}

/// The identity an optional stored text denotes, if it parses.
pub open spec fn opt_id(text: Option<String>) -> Option<u128> {
    match text {
        Some(t) => parsed_uuid(t@),
        None => None,
    }
}

/// `t` is the stored text of the optional identity `v`.
pub open spec fn is_opt_id_text(t: Option<String>, v: Option<u128>) -> bool {
    match (t, v) {
        (Some(s), Some(x)) => s@ == uuid_text(x),
        (None, None) => true,
        _ => false,
    }
}

/// `s` holds the columns written for `row`.
pub open spec fn is_stored_knot(s: StoredKnot, row: KnotRow) -> bool {
    &&& s.id@ == uuid_text(row.id)
    &&& s.local_id == row.local_id as i64
    &&& s.name == row.name
    &&& s.description == row.description
    &&& s.role == row.role
    &&& s.level == row.level as i64
    &&& is_opt_id_text(s.parent_id, row.parent_id)
    &&& is_opt_id_text(s.class_id, row.class_id)
}

/// An identity read from stored text: what the text parses to, or nil; and
/// the identity itself where the text is a UUID's canonical form.
pub open spec fn is_read_id(v: u128, text: Seq<char>) -> bool {
    &&& v == id_or_nil(text)
    &&& forall|x: u128| text == #[trigger] uuid_text(x) ==> v == x
}

/// An optional identity read from optional stored text.
pub open spec fn is_read_opt_id(v: Option<u128>, text: Option<String>) -> bool {
    &&& v == opt_id(text)
    &&& forall|x: u128| text matches Some(t) && t@ == #[trigger] uuid_text(x) ==> v == Some(x)
}

/// `row` is what is read back from the columns `s`.
pub open spec fn is_loaded_knot(row: KnotRow, s: StoredKnot) -> bool {
    &&& is_read_id(row.id, s.id@)
    &&& row.local_id == s.local_id as u64
    &&& row.name == s.name
    &&& row.description == s.description
    &&& row.role == s.role
    &&& row.level == s.level as u32
    &&& is_read_opt_id(row.parent_id, s.parent_id)
    &&& is_read_opt_id(row.class_id, s.class_id)
}

/// `s` holds the columns written for `link`.
pub open spec fn is_stored_link(s: StoredLink, link: LinkRow) -> bool {
    &&& s.id@ == uuid_text(link.id)
    &&& s.source_id@ == uuid_text(link.source_id)
    &&& s.target_id@ == uuid_text(link.target_id)
    &&& s.link_type == link.link_type
}

/// `link` is what is read back from the columns `s`.
pub open spec fn is_loaded_link(link: LinkRow, s: StoredLink) -> bool {
    &&& is_read_id(link.id, s.id@)
    &&& is_read_id(link.source_id, s.source_id@)
    &&& is_read_id(link.target_id, s.target_id@)
    &&& link.link_type == s.link_type
}

fn opt_id_text(v: Option<u128>) -> (t: Option<String>)
    ensures
        is_opt_id_text(t, v),
{
    match v {
        Some(x) => Some(id_to_string(x)),
        None => None,
    }
}

fn read_id(text: &String) -> (v: u128)
    ensures
        is_read_id(v, text@),
{
    match parse_id(text.as_str()) {
        Some(x) => x,
        None => NIL_ID,
    }
}

fn read_opt_id(text: &Option<String>) -> (v: Option<u128>)
    ensures
        is_read_opt_id(v, *text),
{
    match text {
        Some(t) => parse_id(t.as_str()),
        None => None,
    }
}

impl KnotRow {
    /// The columns written for this row: identities as UUID text, integers
    /// as 64-bit signed integers.
    pub fn to_stored(&self) -> (s: StoredKnot)
        ensures
            is_stored_knot(s, *self),
    {
        StoredKnot {
            id: id_to_string(self.id),
            local_id: self.local_id as i64,
            name: self.name.clone(),
            description: clone_opt_string(&self.description),
            role: self.role.clone(),
            level: self.level as i64,
            parent_id: opt_id_text(self.parent_id),
            class_id: opt_id_text(self.class_id),
        }
    }

    /// The row read back from stored columns. An identity that does not
    /// parse becomes nil; an optional one that does not parse is absent.
    pub fn from_stored(s: StoredKnot) -> (row: KnotRow)
        ensures
            is_loaded_knot(row, s),
    {
        let id = read_id(&s.id);
        let parent_id = read_opt_id(&s.parent_id);
        let class_id = read_opt_id(&s.class_id);
        KnotRow {
            id,
            local_id: s.local_id as u64,
            name: s.name,
            description: s.description,
            role: s.role,
            level: s.level as u32,
            parent_id,
            class_id,
        }
    }
}

impl LinkRow {
    /// The columns written for this link.
    pub fn to_stored(&self) -> (s: StoredLink)
        ensures
            is_stored_link(s, *self),
    {
        StoredLink {
            id: id_to_string(self.id),
            source_id: id_to_string(self.source_id),
            target_id: id_to_string(self.target_id),
            link_type: self.link_type.clone(),
        }
    }

    /// The link read back from stored columns; identities that do not parse
    /// become nil.
    pub fn from_stored(s: StoredLink) -> (link: LinkRow)
        ensures
            is_loaded_link(link, s),
    {
        let id = read_id(&s.id);
        let source_id = read_id(&s.source_id);
        let target_id = read_id(&s.target_id);
        LinkRow { id, source_id, target_id, link_type: s.link_type }
    }
}

/// A saved Knot row reads back unchanged.
pub proof fn law_knot_row_round_trip(row: KnotRow, s: StoredKnot, back: KnotRow)
    requires
        is_stored_knot(s, row),
        is_loaded_knot(back, s),
    ensures
        back == row,
{
    let l = row.local_id;
    let v = row.level;
    assert((l as i64) as u64 == l) by (bit_vector);
    assert((v as i64) as u32 == v) by (bit_vector);
    assert(back.id == row.id);
    match row.parent_id {
        Some(p) => assert(s.parent_id->0@ == uuid_text(p)),
        None => {},
    }
    match row.class_id {
        Some(c) => assert(s.class_id->0@ == uuid_text(c)),
        None => {},
    }
}

/// A saved link reads back unchanged.
pub proof fn law_link_row_round_trip(link: LinkRow, s: StoredLink, back: LinkRow)
    requires
        is_stored_link(s, link),
        is_loaded_link(back, s),
    ensures
        back == link,
{
    assert(back.id == link.id);
    assert(back.source_id == link.source_id);
    assert(back.target_id == link.target_id);
}

/// The schema a `class_schemas` row describes.
pub open spec fn schema_of_row(r: SchemaRow) -> PropertySchema {
    PropertySchema {
        name: r.property_name,
        data_type: DataType::spec_from_name(r.data_type@),
        default_value: r.default_value,
        unit: r.unit,
        description: r.description,
    }
}

/// `r` is the row written for property `p` at position `i` of class `id`.
pub open spec fn is_schema_row(r: SchemaRow, id: u128, p: PropertySchema, i: int) -> bool {
    &&& r.class_id@ == uuid_text(id)
    &&& r.property_name == p.name
    &&& r.data_type@ == p.data_type.spec_name()
    &&& r.default_value == p.default_value
    &&& r.unit == p.unit
    &&& r.description == p.description
    &&& r.sort_order == i
}

/// The class keys of `rows` in the order they are first seen.
pub open spec fn class_keys(rows: Seq<SchemaRow>) -> Seq<Seq<char>>
    decreases rows.len(),
{
    if rows.len() == 0 {
        Seq::empty()
    } else {
        let prev = class_keys(rows.drop_last());
        if prev.contains(rows.last().class_id@) {
            prev
        } else {
            prev.push(rows.last().class_id@)
        }
    }
}

/// The schemas of the rows of class key `k`, in row order.
pub open spec fn schemas_of(rows: Seq<SchemaRow>, k: Seq<char>) -> Seq<PropertySchema>
    decreases rows.len(),
{
    if rows.len() == 0 {
        Seq::empty()
    } else {
        let prev = schemas_of(rows.drop_last(), k);
        if rows.last().class_id@ == k {
            prev.push(schema_of_row(rows.last()))
        } else {
            prev
        }
    }
}

/// `c` is the class loaded for key `k` from `rows`: its identity parsed
/// from the key (nil when it does not parse), the name `(loaded)`, no
/// description, and the schemas of the key's rows in row order.
pub open spec fn is_loaded_class(c: ClassDefinition, rows: Seq<SchemaRow>, k: Seq<char>) -> bool {
    &&& is_read_id(c.id, k)
    &&& c.name@ == "(loaded)"@
    &&& c.description is None
    &&& c.properties@ == schemas_of(rows, k)
}

/// The `class_schemas` rows written for `class`: one per property, in order,
/// with the property's position as its sort order.
pub fn schema_rows(class: &ClassDefinition) -> (rows: Vec<SchemaRow>)
    requires
        class.properties@.len() <= i64::MAX,
    ensures
        rows@.len() == class.properties@.len(),
        forall|i: int| 0 <= i < rows@.len() ==> is_schema_row(#[trigger] rows@[i], class.id, class.properties@[i], i),
{
    let class_id = id_to_string(class.id);
    let mut rows: Vec<SchemaRow> = Vec::new();
    let mut i: usize = 0;
    while i < class.properties.len()
        invariant
            i <= class.properties@.len(),
            class.properties@.len() <= i64::MAX,
            class_id@ == uuid_text(class.id),
            rows@.len() == i,
            forall|j: int| 0 <= j < i ==> is_schema_row(#[trigger] rows@[j], class.id, class.properties@[j], j),
        decreases class.properties.len() - i,
    {
        let p = &class.properties[i];
        rows.push(SchemaRow {
            class_id: class_id.clone(),
            property_name: p.name.clone(),
            data_type: p.data_type.name(),
            default_value: clone_opt_value(&p.default_value),
            unit: clone_opt_string(&p.unit),
            description: clone_opt_string(&p.description),
            sort_order: i as i64,
        });
        i = i + 1;
    }
    rows
}

/// The schema a row describes.
pub fn row_schema(r: &SchemaRow) -> (s: PropertySchema)
    ensures
        s == schema_of_row(*r),
{
    PropertySchema {
        name: r.property_name.clone(),
        data_type: DataType::from_name(r.data_type.as_str()),
        default_value: clone_opt_value(&r.default_value),
        unit: clone_opt_string(&r.unit),
        description: clone_opt_string(&r.description),
    }
}

/// The position of `k` in `keys`, if it occurs.
fn key_position(keys: &Vec<String>, k: &String) -> (r: Option<usize>)
    ensures
        r matches Some(i) ==> i < keys@.len() && keys@[i as int]@ == k@,
        r is None ==> forall|i: int| 0 <= i < keys@.len() ==> keys@[i]@ != k@,
{
    let mut i: usize = 0;
    while i < keys.len()
        invariant
            i <= keys@.len(),
            forall|j: int| 0 <= j < i ==> keys@[j]@ != k@,
        decreases keys.len() - i,
    {
        if keys[i] == *k {
            return Some(i);
        }
        i = i + 1;
    }
    None
}

/// Rebuilds class definitions from `class_schemas` rows: one class per
/// distinct class key, in the order keys are first seen, each with the
/// schemas of its rows in row order (see `is_loaded_class`).
pub fn classes_from_rows(rows: &Vec<SchemaRow>) -> (classes: Vec<ClassDefinition>)
    ensures
        classes@.len() == class_keys(rows@).len(),
        forall|j: int| 0 <= j < classes@.len() ==> is_loaded_class(#[trigger] classes@[j], rows@, class_keys(rows@)[j]),
{
    let mut keys: Vec<String> = Vec::new();
    let mut classes: Vec<ClassDefinition> = Vec::new();
    let mut i: usize = 0;
    while i < rows.len()
        invariant
            i <= rows@.len(),
            keys@.len() == classes@.len(),
            keys@.len() == class_keys(rows@.take(i as int)).len(),
            forall|j: int| 0 <= j < keys@.len() ==> #[trigger] keys@[j]@ == class_keys(rows@.take(i as int))[j],
            forall|j: int| 0 <= j < classes@.len() ==> is_loaded_class(#[trigger] classes@[j], rows@.take(i as int), class_keys(rows@.take(i as int))[j]),
        decreases rows.len() - i,
    {
        let r = &rows[i];
        let ghost before = rows@.take(i as int);
        let ghost after = rows@.take(i + 1);
        proof {
            assert(after.drop_last() =~= before);
            assert(after.last() == rows@[i as int]);
        }
        let schema = row_schema(r);
        match key_position(&keys, &r.class_id) {
            Some(j) => {
                proof {
                    assert(class_keys(before).contains(r.class_id@)) by {
                        assert(class_keys(before)[j as int] == r.class_id@);
                    }
                    assert(class_keys(after) == class_keys(before));
                }
                let mut c = classes.remove(j);
                c.properties.push(schema);
                classes.insert(j, c);
                proof {
                    assert forall|m: int| 0 <= m < classes@.len() implies is_loaded_class(#[trigger] classes@[m], after, class_keys(after)[m]) by {
                        if m != j {
                            lemma_keys_distinct(before);
                            assert(class_keys(before)[m] != r.class_id@);
                        }
                    }
                }
            },
            None => {
                proof {
                    assert(!class_keys(before).contains(r.class_id@)) by {
                        if class_keys(before).contains(r.class_id@) {
                            let m = choose|m: int| 0 <= m < class_keys(before).len() && class_keys(before)[m] == r.class_id@;
                            assert(keys@[m]@ == r.class_id@);
                        }
                    }
                    assert(class_keys(after) == class_keys(before).push(r.class_id@));
                    lemma_schemas_of_absent(before, r.class_id@);
                }
                let mut props: Vec<PropertySchema> = Vec::new();
                props.push(schema);
                let c = ClassDefinition {
                    id: read_id(&r.class_id),
                    name: "(loaded)".to_owned(),
                    description: None,
                    properties: props,
                };
                proof { reveal_strlit("(loaded)"); }
                classes.push(c);
                keys.push(r.class_id.clone());
                proof {
                    assert forall|m: int| 0 <= m < classes@.len() implies is_loaded_class(#[trigger] classes@[m], after, class_keys(after)[m]) by {
                        if m < classes@.len() - 1 {
                            assert(class_keys(before)[m] != r.class_id@) by {
                                assert(class_keys(before).contains(class_keys(before)[m]));
                            }
                        }
                    }
                }
            },
        }
        i = i + 1;
    }
    proof { assert(rows@.take(rows@.len() as int) =~= rows@); }
    classes
}

/// No class key is listed twice.
pub proof fn lemma_keys_distinct(rows: Seq<SchemaRow>)
    ensures
        forall|a: int, b: int| 0 <= a < b < class_keys(rows).len() ==> class_keys(rows)[a] != class_keys(rows)[b],
    decreases rows.len(),
{
    if rows.len() > 0 {
        lemma_keys_distinct(rows.drop_last());
        let prev = class_keys(rows.drop_last());
        if !prev.contains(rows.last().class_id@) {
            assert forall|a: int, b: int| 0 <= a < b < class_keys(rows).len() implies class_keys(rows)[a] != class_keys(rows)[b] by {
                if b == prev.len() {
                    assert(prev.contains(prev[a]));
                }
            }
        }
    }
}

/// A key that is not listed has no schemas.
pub proof fn lemma_schemas_of_absent(rows: Seq<SchemaRow>, k: Seq<char>)
    requires
        !class_keys(rows).contains(k),
    ensures
        schemas_of(rows, k) == Seq::<PropertySchema>::empty(),
    decreases rows.len(),
{
    if rows.len() > 0 {
        let prev = class_keys(rows.drop_last());
        if prev.contains(k) {
            let m = choose|m: int| 0 <= m < prev.len() && prev[m] == k;
            if prev.contains(rows.last().class_id@) {
                assert(class_keys(rows)[m] == k);
            } else {
                assert(class_keys(rows)[m] == k);
            }
        }
        if rows.last().class_id@ == k {
            if prev.contains(rows.last().class_id@) {
            } else {
                assert(class_keys(rows)[prev.len() as int] == k);
            }
        }
        lemma_schemas_of_absent(rows.drop_last(), k);
    }
}

proof fn lemma_one_class_prefix(c: ClassDefinition, rows: Seq<SchemaRow>, n: int)
    requires
        rows.len() == c.properties@.len(),
        forall|i: int| 0 <= i < rows.len() ==> is_schema_row(#[trigger] rows[i], c.id, c.properties@[i], i),
        1 <= n <= rows.len(),
    ensures
        class_keys(rows.take(n)) == seq![uuid_text(c.id)],
        schemas_of(rows.take(n), uuid_text(c.id)) == c.properties@.take(n),
    decreases n,
{
    let k = uuid_text(c.id);
    let t = rows.take(n);
    assert(t.last() == rows[n - 1]);
    law_data_type_name_round_trip(c.properties@[n - 1].data_type);
    assert(schema_of_row(rows[n - 1]) == c.properties@[n - 1]);
    if n == 1 {
        assert(t.len() == 1);
        assert(t.drop_last() =~= Seq::<SchemaRow>::empty());
        assert(class_keys(t.drop_last()) == Seq::<Seq<char>>::empty());
        assert(schemas_of(t.drop_last(), k) == Seq::<PropertySchema>::empty());
        assert(t.last().class_id@ == k);
        assert(class_keys(t) =~= seq![k]);
        assert(schemas_of(t, k) =~= c.properties@.take(1));
    } else {
        lemma_one_class_prefix(c, rows, n - 1);
        assert(t.drop_last() =~= rows.take(n - 1));
        assert(seq![k].contains(k)) by { assert(seq![k][0] == k); }
        assert(c.properties@.take(n) =~= c.properties@.take(n - 1).push(c.properties@[n - 1]));
    }
}

/// The rows saved for a class with at least one property load back as
/// exactly one class: the same identity, the name `(loaded)`, no
/// description and the same property schemas in the same order.
pub proof fn law_class_rows_round_trip(c: ClassDefinition, rows: Seq<SchemaRow>, loaded: Seq<ClassDefinition>)
    requires
        rows.len() == c.properties@.len(),
        rows.len() > 0,
        forall|i: int| 0 <= i < rows.len() ==> is_schema_row(#[trigger] rows[i], c.id, c.properties@[i], i),
        loaded.len() == class_keys(rows).len(),
        forall|j: int| 0 <= j < loaded.len() ==> is_loaded_class(#[trigger] loaded[j], rows, class_keys(rows)[j]),
    ensures
        loaded.len() == 1,
        loaded[0].id == c.id,
        loaded[0].name@ == "(loaded)"@,
        loaded[0].description is None,
        loaded[0].properties@ == c.properties@,
{
    lemma_one_class_prefix(c, rows, rows.len() as int);
    assert(rows.take(rows.len() as int) =~= rows);
    assert(c.properties@.take(rows.len() as int) =~= c.properties@);
    assert(is_loaded_class(loaded[0], rows, class_keys(rows)[0]));
}

/// The first local identity above every stored one: one more than the
/// largest, or 0 for an empty workspace.
pub open spec fn spec_next_local_id(rows: Seq<KnotRow>) -> int
    decreases rows.len(),
{
    if rows.len() == 0 {
        0
    } else {
        let prev = spec_next_local_id(rows.drop_last());
        if rows.last().local_id + 1 > prev { rows.last().local_id + 1 } else { prev }
    }
}

proof fn lemma_next_local_id_above(rows: Seq<KnotRow>)
    ensures
        forall|i: int| 0 <= i < rows.len() ==> #[trigger] rows[i].local_id < spec_next_local_id(rows),
        rows.len() == 0 ==> spec_next_local_id(rows) == 0,
        rows.len() > 0 ==> exists|i: int| 0 <= i < rows.len() && spec_next_local_id(rows) == #[trigger] rows[i].local_id + 1,
    decreases rows.len(),
{
    if rows.len() > 0 {
        let p = rows.drop_last();
        lemma_next_local_id_above(p);
        assert forall|i: int| 0 <= i < rows.len() implies #[trigger] rows[i].local_id < spec_next_local_id(rows) by {
            if i < rows.len() - 1 {
                assert(rows[i] == p[i]);
            }
        }
        if rows.last().local_id + 1 > spec_next_local_id(p) {
            assert(spec_next_local_id(rows) == rows[rows.len() - 1].local_id + 1);
        } else {
            let j = choose|j: int| 0 <= j < p.len() && spec_next_local_id(p) == #[trigger] p[j].local_id + 1;
            assert(rows[j] == p[j]);
        }
    }
}

/// Every stored local identity lies below the next one handed out, so a
/// Knot created after a restore never reuses one.
pub proof fn law_next_local_id_is_fresh(rows: Seq<KnotRow>, i: int)
    requires
        0 <= i < rows.len(),
    ensures
        rows[i].local_id < spec_next_local_id(rows),
{
    lemma_next_local_id_above(rows);
}

/// The local identity to hand out next after restoring `rows`: above every
/// stored one. `None` when a stored identity is already the largest `u64`.
pub fn next_local_id(rows: &Vec<KnotRow>) -> (r: Option<u64>)
    ensures
        r matches Some(n) ==> n == spec_next_local_id(rows@),
        r is None <==> spec_next_local_id(rows@) > u64::MAX,
{
    let mut next: u64 = 0;
    let mut i: usize = 0;
    while i < rows.len()
        invariant
            i <= rows@.len(),
            next == spec_next_local_id(rows@.take(i as int)),
        decreases rows.len() - i,
    {
        proof {
            assert(rows@.take(i + 1).drop_last() =~= rows@.take(i as int));
            assert(rows@.take(i + 1).last() == rows@[i as int]);
        }
        let l = rows[i].local_id;
        if l == u64::MAX {
            proof {
                lemma_next_local_id_above(rows@);
                assert(rows@[i as int].local_id < spec_next_local_id(rows@));
            }
            return None;
        }
        if l + 1 > next {
            next = l + 1;
        }
        i = i + 1;
    }
    proof { assert(rows@.take(rows@.len() as int) =~= rows@); }
    Some(next)
}

/// The registry entry a stored row describes, when its role is known: no
/// children yet.
pub open spec fn row_entry(r: KnotRow) -> Option<EntryView> {
    match KnotRole::spec_from_name(r.role@) {
        Some(role) => Some(EntryView {
            id: r.id,
            local_id: r.local_id,
            meta: CellMeta { name: r.name, description: r.description },
            role,
            level: r.level,
            parent_id: r.parent_id,
            class_id: r.class_id,
            child_ids: Seq::empty(),
        }),
        None => None,
    }
}

/// The entries of the rows with a known role, a later row replacing an
/// earlier one with the same identity.
pub open spec fn restored_entries(rows: Seq<KnotRow>) -> Map<u128, EntryView>
    decreases rows.len(),
{
    if rows.len() == 0 {
        Map::empty()
    } else {
        let m = restored_entries(rows.drop_last());
        match row_entry(rows.last()) {
            Some(e) => m.insert(rows.last().id, e),
            None => m,
        }
    }
}

/// `entries` with each row of known role listed, in row order, among the
/// children of its parent.
pub open spec fn restored_children(entries: Map<u128, EntryView>, rows: Seq<KnotRow>) -> Map<u128, EntryView>
    decreases rows.len(),
{
    if rows.len() == 0 {
        entries
    } else {
        let m = restored_children(entries, rows.drop_last());
        match (row_entry(rows.last()), rows.last().parent_id) {
            (Some(_), Some(p)) => with_child(m, p, rows.last().id),
            _ => m,
        }
    }
}

/// The entry a stored row describes, when its role is known.
pub fn entry_of_row(r: &KnotRow) -> (e: Option<RegistryEntry>)
    ensures
        e matches Some(x) ==> row_entry(*r) == Some(x@),
        e is None <==> row_entry(*r) is None,
{
    match KnotRole::from_name(r.role.as_str()) {
        Some(role) => {
            let e = RegistryEntry {
                id: r.id,
                local_id: r.local_id,
                meta: CellMeta { name: r.name.clone(), description: clone_opt_string(&r.description) },
                role,
                level: r.level,
                parent_id: r.parent_id,
                class_id: r.class_id,
                child_ids: Vec::new(),
            };
            proof { assert(e@.child_ids =~= Seq::<u128>::empty()); }
            Some(e)
        },
        None => None,
    }
}

/// Rebuilds the registry from the stored rows: one entry per row with a
/// known role, then each such row listed among its parent's children. No
/// property state is tracked.
pub fn restore_registry(rows: &Vec<KnotRow>) -> (reg: KnotRegistry)
    ensures
        reg.spec_entries() == restored_children(restored_entries(rows@), rows@),
        reg.spec_states() == Map::<u128, Map<Seq<char>, JsonValue>>::empty(),
{
    let mut reg = KnotRegistry::new();
    let mut i: usize = 0;
    while i < rows.len()
        invariant
            i <= rows@.len(),
            reg.spec_entries() == restored_entries(rows@.take(i as int)),
            reg.spec_states() == Map::<u128, Map<Seq<char>, JsonValue>>::empty(),
        decreases rows.len() - i,
    {
        proof {
            assert(rows@.take(i + 1).drop_last() =~= rows@.take(i as int));
            assert(rows@.take(i + 1).last() == rows@[i as int]);
        }
        match entry_of_row(&rows[i]) {
            Some(e) => reg.upsert(e),
            None => {},
        }
        i = i + 1;
    }
    proof { assert(rows@.take(rows@.len() as int) =~= rows@); }
    let ghost base = reg.spec_entries();
    let mut j: usize = 0;
    while j < rows.len()
        invariant
            j <= rows@.len(),
            base == restored_entries(rows@),
            reg.spec_entries() == restored_children(base, rows@.take(j as int)),
            reg.spec_states() == Map::<u128, Map<Seq<char>, JsonValue>>::empty(),
        decreases rows.len() - j,
    {
        proof {
            assert(rows@.take(j + 1).drop_last() =~= rows@.take(j as int));
            assert(rows@.take(j + 1).last() == rows@[j as int]);
        }
        let known = KnotRole::from_name(rows[j].role.as_str()).is_some();
        if known {
            match rows[j].parent_id {
                Some(p) => reg.add_child_id(&p, rows[j].id),
                None => {},
            }
        }
        j = j + 1;
    }
    proof { assert(rows@.take(rows@.len() as int) =~= rows@); }
    reg
}

proof fn lemma_restored_entry(rows: Seq<KnotRow>, i: int)
    requires
        forall|a: int, b: int| 0 <= a < b < rows.len() ==> rows[a].id != rows[b].id,
        0 <= i < rows.len(),
        row_entry(rows[i]) is Some,
    ensures
        restored_entries(rows).contains_key(rows[i].id),
        restored_entries(rows)[rows[i].id] == row_entry(rows[i])->0,
    decreases rows.len(),
{
    let p = rows.drop_last();
    if i < rows.len() - 1 {
        assert(rows[i] == p[i]);
        lemma_restored_entry(p, i);
        assert(rows.last().id != rows[i].id);
    }
}

proof fn lemma_children_keep_fields(base: Map<u128, EntryView>, rows: Seq<KnotRow>, k: u128)
    ensures
        restored_children(base, rows).contains_key(k) <==> base.contains_key(k),
        base.contains_key(k) ==> restored_children(base, rows)[k]
            == (EntryView { child_ids: restored_children(base, rows)[k].child_ids, ..base[k] }),
    decreases rows.len(),
{
    if rows.len() > 0 {
        lemma_children_keep_fields(base, rows.drop_last(), k);
    }
}

proof fn lemma_child_listed(base: Map<u128, EntryView>, rows: Seq<KnotRow>, i: int, p: u128)
    requires
        0 <= i < rows.len(),
        row_entry(rows[i]) is Some,
        rows[i].parent_id == Some(p),
        base.contains_key(p),
    ensures
        restored_children(base, rows)[p].child_ids.contains(rows[i].id),
    decreases rows.len(),
{
    let q = rows.drop_last();
    let c = rows[i].id;
    if i == rows.len() - 1 {
        lemma_children_keep_fields(base, q, p);
        let m = restored_children(base, q);
        if !m[p].child_ids.contains(c) {
            assert(m[p].child_ids.push(c)[m[p].child_ids.len() as int] == c);
        }
    } else {
        assert(rows[i] == q[i]);
        lemma_child_listed(base, q, i, p);
        lemma_children_keep_fields(base, q, p);
        let m = restored_children(base, q);
        let l = rows.last();
        match (row_entry(l), l.parent_id) {
            (Some(_), Some(pp)) => {
                if pp == p && !m[p].child_ids.contains(l.id) {
                    let j = choose|j: int| 0 <= j < m[p].child_ids.len() && m[p].child_ids[j] == c;
                    assert(m[p].child_ids.push(l.id)[j] == c);
                }
            },
            _ => {},
        }
    }
}

/// Restoring a workspace whose rows have distinct identities keeps every
/// row of known role as an entry with the row's fields, and lists it among
/// the children of its parent when the parent is restored too.
pub proof fn law_restore_keeps_rows(rows: Seq<KnotRow>, i: int)
    requires
        forall|a: int, b: int| 0 <= a < b < rows.len() ==> rows[a].id != rows[b].id,
        0 <= i < rows.len(),
        row_entry(rows[i]) is Some,
    ensures
        restored_children(restored_entries(rows), rows).contains_key(rows[i].id),
        restored_children(restored_entries(rows), rows)[rows[i].id]
            == (EntryView {
                child_ids: restored_children(restored_entries(rows), rows)[rows[i].id].child_ids,
                ..row_entry(rows[i])->0
            }),
        match rows[i].parent_id {
            Some(p) => restored_entries(rows).contains_key(p)
                ==> restored_children(restored_entries(rows), rows)[p].child_ids.contains(rows[i].id),
            None => true,
        },
{
    let base = restored_entries(rows);
    lemma_restored_entry(rows, i);
    lemma_children_keep_fields(base, rows, rows[i].id);
    match rows[i].parent_id {
        Some(p) => {
            if base.contains_key(p) {
                lemma_child_listed(base, rows, i, p);
            }
        },
        None => {},
    }
}

proof fn lemma_restored_entries_childless(rows: Seq<KnotRow>, k: u128)
    ensures
        restored_entries(rows).contains_key(k) ==> restored_entries(rows)[k].child_ids.len() == 0,
    decreases rows.len(),
{
    if rows.len() > 0 {
        lemma_restored_entries_childless(rows.drop_last(), k);
    }
}

proof fn lemma_children_come_from_rows(base: Map<u128, EntryView>, rows: Seq<KnotRow>, k: u128, c: u128)
    requires
        restored_children(base, rows).contains_key(k),
        restored_children(base, rows)[k].child_ids.contains(c),
    ensures
        base.contains_key(k) && base[k].child_ids.contains(c)
            || exists|j: int| 0 <= j < rows.len() && row_entry(#[trigger] rows[j]) is Some && rows[j].id == c
                && rows[j].parent_id == Some(k),
    decreases rows.len(),
{
    if rows.len() > 0 {
        let q = rows.drop_last();
        let m = restored_children(base, q);
        let l = rows.last();
        lemma_children_keep_fields(base, q, k);
        lemma_children_keep_fields(base, rows, k);
        let from_q = m.contains_key(k) && m[k].child_ids.contains(c);
        match (row_entry(l), l.parent_id) {
            (Some(_), Some(p)) => {
                if p == k && !m[k].child_ids.contains(l.id) {
                    let i = choose|i: int| 0 <= i < m[k].child_ids.push(l.id).len() && m[k].child_ids.push(l.id)[i] == c;
                    if i < m[k].child_ids.len() {
                        assert(m[k].child_ids[i] == c);
                    } else {
                        assert(c == l.id);
                        assert(rows[rows.len() - 1] == l);
                    }
                }
            },
            _ => {},
        }
        if from_q {
            lemma_children_come_from_rows(base, q, k, c);
            if !(base.contains_key(k) && base[k].child_ids.contains(c)) {
                let j = choose|j: int| 0 <= j < q.len() && row_entry(#[trigger] q[j]) is Some && q[j].id == c
                    && q[j].parent_id == Some(k);
                assert(rows[j] == q[j]);
            }
        }
    }
}

/// A restored entry lists `c` among its children only because of a row:
/// some row of known role has identity `c` and names the entry as its
/// parent. Restoring adds no other child, so a Knot's parent is never
/// listed among its children unless a row says so.
pub proof fn law_restored_children_come_from_rows(rows: Seq<KnotRow>, k: u128, c: u128)
    requires
        restored_children(restored_entries(rows), rows).contains_key(k),
        restored_children(restored_entries(rows), rows)[k].child_ids.contains(c),
    ensures
        exists|j: int| 0 <= j < rows.len() && row_entry(#[trigger] rows[j]) is Some && rows[j].id == c
            && rows[j].parent_id == Some(k),
{
    lemma_restored_entries_childless(rows, k);
    lemma_children_come_from_rows(restored_entries(rows), rows, k, c);
}

/// With distinct identities, a row's parent is not restored as a child of
/// that row unless the parent's own row names the row as its parent.
pub proof fn law_parent_not_restored_as_child(rows: Seq<KnotRow>, i: int, j: int, p: u128)
    requires
        forall|a: int, b: int| 0 <= a < b < rows.len() ==> rows[a].id != rows[b].id,
        0 <= i < rows.len(),
        0 <= j < rows.len(),
        rows[i].parent_id == Some(p),
        rows[j].id == p,
        rows[j].parent_id != Some(rows[i].id),
    ensures
        !(restored_children(restored_entries(rows), rows).contains_key(rows[i].id)
            && restored_children(restored_entries(rows), rows)[rows[i].id].child_ids.contains(p)),
{
    let m = restored_children(restored_entries(rows), rows);
    if m.contains_key(rows[i].id) && m[rows[i].id].child_ids.contains(p) {
        law_restored_children_come_from_rows(rows, rows[i].id, p);
        let x = choose|x: int| 0 <= x < rows.len() && row_entry(#[trigger] rows[x]) is Some && rows[x].id == p
            && rows[x].parent_id == Some(rows[i].id);
        if x < j {
            assert(rows[x].id != rows[j].id);
        } else if j < x {
            assert(rows[j].id != rows[x].id);
        }
    }
}

} // verus!
