//! Class definitions: the property schemas that Object Knots follow.
//!
//! A class is an ordered list of property schemas, each with a name, a data
//! type and optional default value, unit and description.

use vstd::prelude::*;
use vstd::string::*;
use crate::json::{JsonValue, JsonNumber, JsonFields, JsonList, clone_value, field};
use crate::state::PropertyMap;
use crate::assoc::AssocMap;
use crate::cell::clone_opt_string;
use crate::ids::{new_id, id_to_string, uuid_text, is_v4};
use crate::text::{decimal, json_text, json_string, push_str, push_decimal, string_of};

verus! {

/// The primitive data type of a class property.
#[derive(Debug, PartialEq, Eq, Clone, Copy)]
pub enum DataType {
    /// A text string.
    String,
    /// A number.
    Number,
    /// A boolean flag.
    Boolean,
    /// Any JSON value.
    Json,
}

impl DataType {
    /// Whether `v` has the JSON kind this type asks for.
    pub open spec fn spec_is_compatible(self, v: JsonValue) -> bool {
        match self {
            DataType::String => v is Text,
            DataType::Number => v is Number,
            DataType::Boolean => v is Bool,
            DataType::Json => true,
        }
    }

    /// The lower-case name of the type.
    pub open spec fn spec_name(self) -> Seq<char> {
        match self {
            DataType::String => "string"@,
            DataType::Number => "number"@,
            DataType::Boolean => "boolean"@,
            DataType::Json => "json"@,
        }
    }

    /// The type a stored name denotes; unknown names denote `Json`.
    pub open spec fn spec_from_name(name: Seq<char>) -> DataType {
        if name == "string"@ {
            DataType::String
        } else if name == "number"@ {
            DataType::Number
        } else if name == "boolean"@ {
            DataType::Boolean
        } else {
            DataType::Json
        }
    }

    /// Returns `true` if `value` is structurally compatible with this type;
    /// `Json` accepts every value.
    pub fn is_compatible(&self, value: &JsonValue) -> (b: bool)
        ensures
            b == self.spec_is_compatible(*value),
    {
        match self {
            DataType::String => value.is_string(),
            DataType::Number => value.is_number(),
            DataType::Boolean => value.is_boolean(),
            DataType::Json => true,
        }
    }

    /// The canonical zero value: `""`, `0.0`, `false` or `null`.
    pub fn zero_value(&self) -> (v: JsonValue)
        ensures
            self.spec_is_compatible(v),
            *self == DataType::String ==> v.spec_text() == Some(Seq::<char>::empty()),
            *self == DataType::Number ==> (v matches JsonValue::Number(JsonNumber::Float(t)) && t@ == "0.0"@),
            *self == DataType::Boolean ==> v == JsonValue::Bool(false),
            *self == DataType::Json ==> v == JsonValue::Null,
    {
        match self {
            DataType::String => JsonValue::Text(String::new()),
            DataType::Number => JsonValue::float("0.0"),
            DataType::Boolean => JsonValue::Bool(false),
            DataType::Json => JsonValue::Null,
        }
    }

    /// The lower-case name: `string`, `number`, `boolean` or `json`.
    pub fn name(&self) -> (s: String)
        ensures
            s@ == self.spec_name(),
    {
        match self {
            DataType::String => "string".to_owned(),
            DataType::Number => "number".to_owned(),
            DataType::Boolean => "boolean".to_owned(),
            DataType::Json => "json".to_owned(),
        }
    }

    /// The type a stored name denotes; names other than `string`, `number`
    /// and `boolean` denote `Json`.
    pub fn from_name(name: &str) -> (t: DataType)
        ensures
            t == DataType::spec_from_name(name@),
    {
        let n = name.to_owned();
        if n == "string".to_owned() {
            DataType::String
        } else if n == "number".to_owned() {
            DataType::Number
        } else if n == "boolean".to_owned() {
            DataType::Boolean
        } else {
            DataType::Json
        }
    }
}

/// The schema of one named property of a class.
#[derive(Debug, PartialEq, Eq)]
pub struct PropertySchema {
    /// Name of the property, unique within its class.
    pub name: String,
    /// Expected data type of its values.
    pub data_type: DataType,
    /// Explicit default; the type's zero value applies when absent.
    pub default_value: Option<JsonValue>,
    /// Optional unit label (for example `"°C"`).
    pub unit: Option<String>,
    /// Optional description.
    pub description: Option<String>,
}

/// The zero value of a data type, as a spec value; `Number`'s zero is a
/// float whose text is `0.0`, so it is described by `zero_value`'s contract.
pub open spec fn is_zero_of(t: DataType, v: JsonValue) -> bool {
    match t {
        DataType::String => v.spec_text() == Some(Seq::<char>::empty()),
        DataType::Number => v matches JsonValue::Number(JsonNumber::Float(s)) && s@ == "0.0"@,
        DataType::Boolean => v == JsonValue::Bool(false),
        DataType::Json => v == JsonValue::Null,
    }
}

/// What the effective default of `s` is: the explicit default, or else a
/// zero value of its type.
pub open spec fn is_effective_default(s: PropertySchema, v: JsonValue) -> bool {
    match s.default_value {
        Some(d) => v == d,
        None => is_zero_of(s.data_type, v),
    }
}

/// A copy of an optional JSON value, equal to it.
pub fn clone_opt_value(v: &Option<JsonValue>) -> (r: Option<JsonValue>)
    ensures
        r == *v,
{
    match v {
        Some(x) => Some(clone_value(x)),
        None => None,
    }
}

impl Clone for PropertySchema {
    fn clone(&self) -> (r: Self)
        ensures
            r == *self,
    {
        PropertySchema {
            name: self.name.clone(),
            data_type: self.data_type,
            default_value: clone_opt_value(&self.default_value),
            unit: clone_opt_string(&self.unit),
            description: clone_opt_string(&self.description),
        }
    }
}

impl PropertySchema {
    /// A schema with the given name and type and no optional parts.
    pub fn new(name: &str, data_type: DataType) -> (s: Self)
        ensures
            s.name@ == name@,
            s.data_type == data_type,
            s.default_value is None,
            s.unit is None,
            s.description is None,
    {
        PropertySchema { name: name.to_owned(), data_type, default_value: None, unit: None, description: None }
    }

    /// The same schema with an explicit default.
    pub fn with_default(self, value: JsonValue) -> (s: Self)
        ensures
            s == (PropertySchema { default_value: Some(value), ..self }),
    {
        PropertySchema { default_value: Some(value), ..self }
    }

    /// The same schema with a unit label.
    pub fn with_unit(self, unit: &str) -> (s: Self)
        ensures
            s.name == self.name,
            s.data_type == self.data_type,
            s.default_value == self.default_value,
            s.unit matches Some(u) && u@ == unit@,
            s.description == self.description,
    {
        PropertySchema { unit: Some(unit.to_owned()), ..self }
    }

    /// The same schema with a description.
    pub fn with_description(self, desc: &str) -> (s: Self)
        ensures
            s.name == self.name,
            s.data_type == self.data_type,
            s.default_value == self.default_value,
            s.unit == self.unit,
            s.description matches Some(d) && d@ == desc@,
    {
        PropertySchema { description: Some(desc.to_owned()), ..self }
    }

    /// The explicit default if there is one, else the type's zero value.
    pub fn effective_default(&self) -> (v: JsonValue)
        ensures
            is_effective_default(*self, v),
    {
        match &self.default_value {
            Some(d) => clone_value(d),
            None => self.data_type.zero_value(),
        }
    }
}

/// Why a value does not fit a class schema.
#[derive(Debug, PartialEq, Eq)]
pub enum SchemaError {
    /// The named property is not defined in the class.
    UnknownProperty(String),
    /// The value's JSON kind does not match the property's type.
    TypeMismatch { property: String, expected: DataType, got: JsonValue },
}

impl SchemaError {
    /// The error message.
    pub fn message(&self) -> (s: String)
        ensures
            self matches SchemaError::UnknownProperty(p) ==> s@ == "property '"@ + p@
                + "' is not defined in the class schema"@,
            self matches SchemaError::TypeMismatch { property, expected, got } ==> s@
                == "type mismatch for '"@ + property@ + "': expected "@ + expected.spec_name() + ", got "@
                + json_text(*got),
    {
        match self {
            SchemaError::UnknownProperty(p) => {
                let s = "property '".to_owned();
                let s = s.concat(p.as_str());
                s.concat("' is not defined in the class schema")
            },
            SchemaError::TypeMismatch { property, expected, got } => {
                let s = "type mismatch for '".to_owned();
                let s = s.concat(property.as_str());
                let s = s.concat("': expected ");
                let n = expected.name();
                let s = s.concat(n.as_str());
                let s = s.concat(", got ");
                s.concat(json_string(got).as_str())
            },
        }
    }
}

/// Index of the first schema named `name` in `props`, or -1.
pub open spec fn schema_index(props: Seq<PropertySchema>, name: Seq<char>) -> int
    decreases props.len(),
{
    if props.len() == 0 {
        -1
    } else {
        let r = schema_index(props.drop_last(), name);
        if r >= 0 {
            r
        } else if props.last().name@ == name {
            props.len() - 1
        } else {
            -1
        }
    }
}

/// `schema_index` is the least index of a schema with that name, or -1.
pub proof fn lemma_schema_index(props: Seq<PropertySchema>, name: Seq<char>)
    ensures
        -1 <= schema_index(props, name) < props.len(),
        schema_index(props, name) >= 0 ==> props[schema_index(props, name)].name@ == name,
        forall|j: int| 0 <= j < props.len() && (schema_index(props, name) < 0 || j < schema_index(props, name))
            ==> #[trigger] props[j].name@ != name,
    decreases props.len(),
{
    if props.len() > 0 {
        lemma_schema_index(props.drop_last(), name);
        assert forall|j: int| 0 <= j < props.len() && (schema_index(props, name) < 0 || j < schema_index(props, name))
            implies #[trigger] props[j].name@ != name by {
            if j < props.len() - 1 {
                assert(props[j] == props.drop_last()[j]);
            }
        }
    }
}

/// The property map a class's defaults describe: each name gets the
/// effective default of the last schema with that name.
pub open spec fn defaults_describe(props: Seq<PropertySchema>, m: Map<Seq<char>, JsonValue>) -> bool {
    &&& forall|k: Seq<char>| m.contains_key(k) <==> exists|i: int| 0 <= i < props.len() && #[trigger] props[i].name@ == k
    &&& forall|i: int| 0 <= i < props.len()
            && (forall|j: int| i < j < props.len() ==> #[trigger] props[j].name@ != props[i].name@)
            ==> is_effective_default(#[trigger] props[i], m[props[i].name@])
}

/// Adding a schema's default to a map that describes the defaults of
/// `t` gives a map that describes the defaults of `t` with that schema.
pub proof fn lemma_defaults_step(
    t: Seq<PropertySchema>,
    p: PropertySchema,
    before: Map<Seq<char>, JsonValue>,
    after: Map<Seq<char>, JsonValue>,
    d: JsonValue,
)
    requires
        defaults_describe(t, before),
        after == before.insert(p.name@, d),
        is_effective_default(p, d),
    ensures
        defaults_describe(t.push(p), after),
{
    let t1 = t.push(p);
    let i = t.len() as int;
    assert forall|k: Seq<char>| after.contains_key(k) <==> exists|j: int| 0 <= j < t1.len() && #[trigger] t1[j].name@ == k by {
        if after.contains_key(k) && k != p.name@ {
            assert(before.contains_key(k));
            let j = choose|j: int| 0 <= j < t.len() && #[trigger] t[j].name@ == k;
            assert(t1[j] == t[j]);
        }
        if k == p.name@ {
            assert(t1[i].name@ == k);
        }
        if exists|j: int| 0 <= j < t1.len() && #[trigger] t1[j].name@ == k {
            let j = choose|j: int| 0 <= j < t1.len() && #[trigger] t1[j].name@ == k;
            if j < i {
                assert(t[j] == t1[j]);
            }
        }
    }
    assert forall|a: int| 0 <= a < t1.len()
        && (forall|j: int| a < j < t1.len() ==> #[trigger] t1[j].name@ != t1[a].name@)
        implies is_effective_default(#[trigger] t1[a], after[t1[a].name@]) by {
        if a < i {
            assert(t1[a] == t[a]);
            assert(t1[i].name@ != t1[a].name@);
            assert forall|j: int| a < j < t.len() implies #[trigger] t[j].name@ != t[a].name@ by {
                assert(t[j] == t1[j]);
            }
        }
    }
}

/// Whether `value` fits property `name` of `props`.
pub open spec fn spec_valid(props: Seq<PropertySchema>, name: Seq<char>, value: JsonValue) -> bool {
    let i = schema_index(props, name);
    i >= 0 && props[i].data_type.spec_is_compatible(value)
}

/// `e` is the error of checking `value` for property `name` against
/// `props`: unknown when no schema has that name, else a type mismatch
/// against the first schema's type.
pub open spec fn is_property_error(props: Seq<PropertySchema>, name: Seq<char>, value: JsonValue, e: SchemaError) -> bool {
    if schema_index(props, name) < 0 {
        e matches SchemaError::UnknownProperty(p) && p@ == name
    } else {
        e matches SchemaError::TypeMismatch { property, expected, got }
            && property@ == name
            && expected == props[schema_index(props, name)].data_type
            && got == value
    }
}

/// The names of `props` are pairwise distinct.
pub open spec fn names_distinct(props: Seq<PropertySchema>) -> bool {
    forall|i: int, j: int| 0 <= i < j < props.len() ==> props[i].name@ != props[j].name@
}

/// Every explicit default of `props` fits its property's type.
pub open spec fn defaults_fit(props: Seq<PropertySchema>) -> bool {
    forall|i: int| 0 <= i < props.len() ==> (#[trigger] props[i].default_value matches Some(d)
        ==> props[i].data_type.spec_is_compatible(d))
}

/// A class's default state passes its own validation when property names are
/// distinct and every explicit default fits its type (zero values always fit).
#[verifier::rlimit(60)]
pub proof fn law_default_state_is_valid(props: Seq<PropertySchema>, m: Map<Seq<char>, JsonValue>, k: Seq<char>)
    requires
        defaults_describe(props, m),
        names_distinct(props),
        defaults_fit(props),
        m.contains_key(k),
    ensures
        spec_valid(props, k, m[k]),
{
    assert(exists|i: int| 0 <= i < props.len() && #[trigger] props[i].name@ == k);
    let i = choose|i: int| 0 <= i < props.len() && #[trigger] props[i].name@ == k;
    assert forall|j: int| i < j < props.len() implies #[trigger] props[j].name@ != props[i].name@ by {
        assert(props[i].name@ != props[j].name@);
    }
    assert(is_effective_default(props[i], m[props[i].name@]));
    lemma_schema_index(props, k);
    let f = schema_index(props, k);
    if f != i {
        if f >= 0 {
            assert(props[f].name@ == k);
            if f < i {
                assert(props[f].name@ != props[i].name@);
            } else {
                assert(props[i].name@ != props[f].name@);
            }
        } else {
            assert(props[i].name@ != k);
        }
    }
    assert(f == i);
    if props[i].default_value is Some {
        assert(props[i].default_value matches Some(d) ==> props[i].data_type.spec_is_compatible(d));
    }
}

/// A blueprint for Object Knots: an identity, a name, an optional
/// description and an ordered list of property schemas.
#[derive(Debug)]
pub struct ClassDefinition {
    /// Identity of the class.
    pub id: u128,
    /// Class name (for example `"TemperatureSensor"`).
    pub name: String,
    /// Optional description.
    pub description: Option<String>,
    /// The property schemas, in order.
    pub properties: Vec<PropertySchema>,
}

impl Clone for ClassDefinition {
    fn clone(&self) -> (r: Self)
        ensures
            r.id == self.id,
            r.name == self.name,
            r.description == self.description,
            r.properties@ == self.properties@,
    {
        let mut props: Vec<PropertySchema> = Vec::new();
        let mut i: usize = 0;
        while i < self.properties.len()
            invariant
                i <= self.properties@.len(),
                props@ == self.properties@.take(i as int),
            decreases self.properties.len() - i,
        {
            props.push(self.properties[i].clone());
            proof { assert(props@ =~= self.properties@.take(i + 1)); }
            i = i + 1;
        }
        proof { assert(props@ =~= self.properties@); }
        ClassDefinition {
            id: self.id,
            name: self.name.clone(),
            description: clone_opt_string(&self.description),
            properties: props,
        }
    }
}

impl ClassDefinition {
    /// A class with a fresh identity, the given name and no properties.
    pub fn new(name: &str) -> (c: Self)
        ensures
            is_v4(c.id),
            c.name@ == name@,
            c.description is None,
            c.properties@.len() == 0,
    {
        ClassDefinition { id: new_id(), name: name.to_owned(), description: None, properties: Vec::new() }
    }

    /// The same class with a description.
    pub fn with_description(self, desc: &str) -> (c: Self)
        ensures
            c.id == self.id,
            c.name == self.name,
            c.description matches Some(d) && d@ == desc@,
            c.properties@ == self.properties@,
    {
        ClassDefinition { description: Some(desc.to_owned()), ..self }
    }

    /// The same class with `schema` appended to its properties.
    pub fn with_property(self, schema: PropertySchema) -> (c: Self)
        ensures
            c.id == self.id,
            c.name == self.name,
            c.description == self.description,
            c.properties@ == self.properties@.push(schema),
    {
        let mut c = self;
        c.properties.push(schema);
        c
    }

    /// The first schema named `name`, if any.
    pub fn property(&self, name: &str) -> (r: Option<&PropertySchema>)
        ensures
            r matches Some(s) ==> schema_index(self.properties@, name@) >= 0
                && *s == self.properties@[schema_index(self.properties@, name@)],
            r is None <==> schema_index(self.properties@, name@) < 0,
    {
        let n = name.to_owned();
        let mut i: usize = 0;
        proof { lemma_schema_index(self.properties@, name@); }
        while i < self.properties.len()
            invariant
                i <= self.properties@.len(),
                n@ == name@,
                -1 <= schema_index(self.properties@, name@) < self.properties@.len(),
                schema_index(self.properties@, name@) >= 0 ==>
                    self.properties@[schema_index(self.properties@, name@)].name@ == name@,
                forall|j: int| 0 <= j < self.properties@.len() && (schema_index(self.properties@, name@) < 0
                    || j < schema_index(self.properties@, name@)) ==> #[trigger] self.properties@[j].name@ != name@,
                forall|j: int| 0 <= j < i ==> #[trigger] self.properties@[j].name@ != name@,
            decreases self.properties.len() - i,
        {
            if self.properties[i].name == n {
                return Some(&self.properties[i]);
            }
            i = i + 1;
        }
        None
    }

    /// Every property name mapped to its effective default.
    ///
    /// When two schemas share a name, the later one's default is kept.
    pub fn default_state(&self) -> (m: PropertyMap)
        ensures
            defaults_describe(self.properties@, m@),
    {
        let mut m: PropertyMap = AssocMap::new();
        let mut i: usize = 0;
        while i < self.properties.len()
            invariant
                i <= self.properties@.len(),
                defaults_describe(self.properties@.take(i as int), m@),
            decreases self.properties.len() - i,
        {
            let ghost before = m@;
            let p = &self.properties[i];
            let d = p.effective_default();
            m.insert(p.name.clone(), d);
            proof {
                assert(self.properties@.take(i + 1) == self.properties@.take(i as int).push(*p));
                lemma_defaults_step(self.properties@.take(i as int), *p, before, m@, d);
            }
            i = i + 1;
        }
        proof { assert(self.properties@.take(self.properties@.len() as int) == self.properties@); }
        m
    }

    /// Checks that `value` fits the first schema named `name`.
    pub fn validate_property(&self, name: &str, value: &JsonValue) -> (r: Result<(), SchemaError>)
        ensures
            r is Ok <==> spec_valid(self.properties@, name@, *value),
            schema_index(self.properties@, name@) < 0 ==>
                (r matches Err(SchemaError::UnknownProperty(p)) && p@ == name@),
            schema_index(self.properties@, name@) >= 0 && !spec_valid(self.properties@, name@, *value) ==>
                (r matches Err(SchemaError::TypeMismatch { property, expected, got })
                    && property@ == name@
                    && expected == self.properties@[schema_index(self.properties@, name@)].data_type
                    && got == *value),
            r matches Err(e) ==> is_property_error(self.properties@, name@, *value, e),
    {
        match self.property(name) {
            None => Err(SchemaError::UnknownProperty(name.to_owned())),
            Some(schema) => {
                if !schema.data_type.is_compatible(value) {
                    Err(SchemaError::TypeMismatch {
                        property: name.to_owned(),
                        expected: schema.data_type,
                        got: clone_value(value),
                    })
                } else {
                    Ok(())
                }
            },
        }
    }

    /// Checks every entry of `state` in iteration order and returns the
    /// first error, or `Ok(())` when all entries fit.
    pub fn validate_state(&self, state: &PropertyMap) -> (r: Result<(), SchemaError>)
        ensures
            r is Ok <==> forall|i: int| 0 <= i < state.items().len() ==>
                spec_valid(self.properties@, #[trigger] state.items()[i].0@, state.items()[i].1),
            r matches Err(e) ==> exists|i: int| 0 <= i < state.items().len()
                && !spec_valid(self.properties@, #[trigger] state.items()[i].0@, state.items()[i].1)
                && (forall|j: int| 0 <= j < i ==>
                    spec_valid(self.properties@, #[trigger] state.items()[j].0@, state.items()[j].1))
                && is_property_error(self.properties@, state.items()[i].0@, state.items()[i].1, e),
    {
        let n = state.len();
        let mut i: usize = 0;
        while i < n
            invariant
                i <= n,
                n == state.items().len(),
                forall|j: int| 0 <= j < i ==>
                    spec_valid(self.properties@, #[trigger] state.items()[j].0@, state.items()[j].1),
            decreases n - i,
        {
            let k = state.key_at(i);
            let v = state.value_at(i);
            let r = self.validate_property(k.as_str(), v);
            if r.is_err() {
                proof {
                    assert(!spec_valid(self.properties@, state.items()[i as int].0@, state.items()[i as int].1));
                }
                return r;
            }
            i = i + 1;
        }
        Ok(())
    }
}

/// `v` is JSON `null` for `None` and the JSON string of the text otherwise.
pub open spec fn is_opt_text_json(v: JsonValue, s: Option<String>) -> bool {
    match s {
        Some(t) => v.spec_text() == Some(t@),
        None => v == JsonValue::Null,
    }
}

/// `v` is the JSON form of schema `s`.
pub open spec fn is_schema_json(v: JsonValue, s: PropertySchema) -> bool {
    &&& v.spec_object_len() == Some(5nat)
    &&& v.spec_text_field("name"@) == Some(s.name@)
    &&& v.spec_text_field("data_type"@) == Some(s.data_type.spec_name())
    &&& v.spec_field("default_value"@) == Some(match s.default_value { Some(d) => d, None => JsonValue::Null })
    &&& v.spec_field("unit"@) matches Some(u) && is_opt_text_json(u, s.unit)
    &&& v.spec_field("description"@) matches Some(d) && is_opt_text_json(d, s.description)
}

/// `v` is the JSON form of class `c`.
pub open spec fn is_class_json(v: JsonValue, c: ClassDefinition) -> bool {
    &&& v.spec_object_len() == Some(4nat)
    &&& v.spec_text_field("id"@) == Some(uuid_text(c.id))
    &&& v.spec_text_field("name"@) == Some(c.name@)
    &&& v.spec_field("description"@) matches Some(d) && is_opt_text_json(d, c.description)
    &&& v.spec_field("properties"@) matches Some(JsonValue::Array(l))
        && l.spec_items().len() == c.properties@.len()
        && forall|i: int| 0 <= i < c.properties@.len() ==> is_schema_json(#[trigger] l.spec_items()[i], c.properties@[i])
}

/// JSON `null` for `None`, else the JSON string of the text.
pub fn opt_text_json(s: &Option<String>) -> (v: JsonValue)
    ensures
        is_opt_text_json(v, *s),
{
    match s {
        Some(t) => JsonValue::Text(t.clone()),
        None => JsonValue::Null,
    }
}

impl PropertySchema {
    /// The schema as a JSON object with fields `name`, `data_type`,
    /// `default_value`, `unit` and `description` (absent parts as `null`).
    pub fn to_json(&self) -> (v: JsonValue)
        ensures
            is_schema_json(v, *self),
    {
        proof {
            reveal_strlit("name");
            reveal_strlit("data_type");
            reveal_strlit("default_value");
            reveal_strlit("unit");
            reveal_strlit("description");
            assert("name"@.len() == 4 && "unit"@.len() == 4 && "data_type"@.len() == 9);
            assert("default_value"@.len() == 13 && "description"@.len() == 11);
            assert("name"@[0] != "unit"@[0]);
        }
        let default = match &self.default_value {
            Some(d) => clone_value(d),
            None => JsonValue::Null,
        };
        let f = field("description", opt_text_json(&self.description), JsonFields::Nil);
        let f = field("unit", opt_text_json(&self.unit), f);
        let f = field("default_value", default, f);
        let f = field("data_type", JsonValue::Text(self.data_type.name()), f);
        let f = field("name", JsonValue::Text(self.name.clone()), f);
        JsonValue::Object(f)
    }
}

impl ClassDefinition {
    /// The class as a JSON object with fields `id` (UUID text), `name`,
    /// `description` (or `null`) and `properties` (the schemas, in order).
    pub fn to_json(&self) -> (v: JsonValue)
        ensures
            is_class_json(v, *self),
    {
        let mut items: Vec<JsonValue> = Vec::new();
        let mut i: usize = 0;
        while i < self.properties.len()
            invariant
                i <= self.properties@.len(),
                items@.len() == i,
                forall|j: int| 0 <= j < i ==> is_schema_json(#[trigger] items@[j], self.properties@[j]),
            decreases self.properties.len() - i,
        {
            items.push(self.properties[i].to_json());
            i = i + 1;
        }
        let ghost item_seq = items@;
        let props = JsonValue::array(items);
        proof {
            crate::json::lemma_list_from_seq(item_seq);
            reveal_strlit("id");
            reveal_strlit("name");
            reveal_strlit("description");
            reveal_strlit("properties");
            assert("id"@.len() == 2 && "name"@.len() == 4 && "description"@.len() == 11 && "properties"@.len() == 10);
        }
        let f = field("properties", props, JsonFields::Nil);
        let f = field("description", opt_text_json(&self.description), f);
        let f = field("name", JsonValue::Text(self.name.clone()), f);
        let f = field("id", JsonValue::Text(id_to_string(self.id)), f);
        JsonValue::Object(f)
    }
}

impl ClassDefinition {
    /// A one-line description: `Class(<name>, <n> properties)`.
    pub fn describe(&self) -> (s: String)
        ensures
            s@ == "Class("@ + self.name@ + ", "@ + decimal(self.properties@.len()) + " properties)"@,
    {
        let mut out: Vec<char> = Vec::new();
        push_str(&mut out, "Class(");
        push_str(&mut out, self.name.as_str());
        push_str(&mut out, ", ");
        push_decimal(&mut out, self.properties.len() as u64);
        push_str(&mut out, " properties)");
        proof { assert(out@ =~= "Class("@ + self.name@ + ", "@ + decimal(self.properties@.len()) + " properties)"@); }
        string_of(&out)
    }
}

/// A type's name reads back as that type.
pub proof fn law_data_type_name_round_trip(t: DataType)
    ensures
        DataType::spec_from_name(t.spec_name()) == t,
{
    reveal_strlit("string");
    reveal_strlit("number");
    reveal_strlit("boolean");
    reveal_strlit("json");
    assert("string"@.len() == 6 && "number"@.len() == 6 && "boolean"@.len() == 7 && "json"@.len() == 4);
    assert("string"@[0] != "number"@[0]);
}

/// Which JSON values each data type accepts: a string property takes only
/// JSON strings, a number property only numbers, a boolean property only
/// booleans, and a JSON property any value.
pub proof fn law_type_compatibility(t: DataType, v: JsonValue)
    ensures
        t == DataType::String ==> (t.spec_is_compatible(v) <==> v is Text),
        t == DataType::Number ==> (t.spec_is_compatible(v) <==> v is Number),
        t == DataType::Boolean ==> (t.spec_is_compatible(v) <==> v is Bool),
        t == DataType::Json ==> t.spec_is_compatible(v),
{
}

/// A value is valid for a property exactly when the class defines the
/// property and the value has the JSON kind of the property's type: a
/// string for `String`, a number for `Number`, a boolean for `Boolean`,
/// anything for `Json`.
pub proof fn law_valid_values(props: Seq<PropertySchema>, name: Seq<char>, v: JsonValue)
    ensures
        spec_valid(props, name, v) <==> schema_index(props, name) >= 0 && match props[schema_index(props, name)].data_type {
            DataType::String => v is Text,
            DataType::Number => v is Number,
            DataType::Boolean => v is Bool,
            DataType::Json => true,
        },
{
}

} // verus!
