//! JSON values carried in packet payloads and object state.
//!
//! Arrays and objects are linked lists of boxed nodes, so a value is a plain
//! algebraic datatype: two values are equal exactly when they have the same
//! shape and contents, and a clone is equal to its original. Object fields
//! keep the order in which they were written; a lookup returns the first field
//! with the requested name.

use vstd::prelude::*;

verus! {

/// A JSON value.
#[derive(Debug, PartialEq, Eq)]
pub enum JsonValue {
    Null,
    Bool(bool),
    Number(JsonNumber),
    Text(String),
    Array(JsonList),
    Object(JsonFields),
}

/// A JSON number: a non-negative integer, a negative integer, or a number
/// with a fraction or exponent held as its JSON text (for example `-5.0`).
#[derive(Debug, PartialEq, Eq)]
pub enum JsonNumber {
    PosInt(u64),
    NegInt(i64),
    Float(String),
}

/// The elements of a JSON array, first element outermost.
#[derive(Debug, PartialEq, Eq)]
pub enum JsonList {
    Nil,
    Cons(Box<JsonValue>, Box<JsonList>),
}

/// The fields of a JSON object, first field outermost.
#[derive(Debug, PartialEq, Eq)]
pub enum JsonFields {
    Nil,
    Cons(String, Box<JsonValue>, Box<JsonFields>),
}

impl JsonList {
    /// The elements in order.
    pub open spec fn spec_items(self) -> Seq<JsonValue>
        decreases self,
    {
        match self {
            JsonList::Nil => Seq::empty(),
            JsonList::Cons(v, rest) => seq![*v] + rest.spec_items(),
        }
    }

    /// The list holding `s` in order.
    pub open spec fn from_seq(s: Seq<JsonValue>) -> JsonList
        decreases s.len(),
    {
        if s.len() == 0 {
            JsonList::Nil
        } else {
            JsonList::Cons(Box::new(s[0]), Box::new(JsonList::from_seq(s.drop_first())))
        }
    }
}

impl JsonFields {
    /// The (name, value) pairs in order.
    pub open spec fn spec_pairs(self) -> Seq<(Seq<char>, JsonValue)>
        decreases self,
    {
        match self {
            JsonFields::Nil => Seq::empty(),
            JsonFields::Cons(k, v, rest) => seq![(k@, *v)] + rest.spec_pairs(),
        }
    }

    /// The value of the first field named `key`.
    pub open spec fn spec_lookup(self, key: Seq<char>) -> Option<JsonValue>
        decreases self,
    {
        match self {
            JsonFields::Nil => None,
            JsonFields::Cons(k, v, rest) => if k@ == key { Some(*v) } else { rest.spec_lookup(key) },
        }
    }

    /// The field list holding the pairs of `s` in order.
    pub open spec fn from_seq(s: Seq<(String, JsonValue)>) -> JsonFields
        decreases s.len(),
    {
        if s.len() == 0 {
            JsonFields::Nil
        } else {
            JsonFields::Cons(s[0].0, Box::new(s[0].1), Box::new(JsonFields::from_seq(s.drop_first())))
        }
    }

    /// Number of fields.
    pub open spec fn spec_len(self) -> nat
        decreases self,
    {
        match self {
            JsonFields::Nil => 0,
            JsonFields::Cons(_, _, rest) => 1 + rest.spec_len(),
        }
    }

    /// Number of fields.
    pub fn len(&self) -> (n: usize)
        requires
            self.spec_len() <= usize::MAX,
        ensures
            n == self.spec_len(),
        decreases self,
    {
        match self {
            JsonFields::Nil => 0,
            JsonFields::Cons(_, _, rest) => 1 + rest.len(),
        }
    }

    /// Returns the value of the first field named `key`.
    pub fn lookup(&self, key: &String) -> (r: Option<&JsonValue>)
        ensures
            r matches Some(v) ==> self.spec_lookup(key@) == Some(*v),
            r is None <==> self.spec_lookup(key@) is None,
        decreases self,
    {
        match self {
            JsonFields::Nil => None,
            JsonFields::Cons(k, v, rest) => {
                if *k == *key {
                    Some(&**v)
                } else {
                    rest.lookup(key)
                }
            },
        }
    }
}

impl JsonValue {
    /// The number of fields when this is an object; with lookups of that
    /// many distinct names it says the object has those fields and no other.
    pub open spec fn spec_object_len(self) -> Option<nat> {
        match self {
            JsonValue::Object(fields) => Some(fields.spec_len()),
            _ => None,
        }
    }

    /// The value of field `key` when this is an object holding such a field.
    pub open spec fn spec_field(self, key: Seq<char>) -> Option<JsonValue> {
        match self {
            JsonValue::Object(fields) => fields.spec_lookup(key),
            _ => None,
        }
    }

    /// The text when this is a JSON string.
    pub open spec fn spec_text(self) -> Option<Seq<char>> {
        match self {
            JsonValue::Text(s) => Some(s@),
            _ => None,
        }
    }

    /// The text of field `key`, when this is an object whose field `key` is a string.
    pub open spec fn spec_text_field(self, key: Seq<char>) -> Option<Seq<char>> {
        match self.spec_field(key) {
            Some(v) => v.spec_text(),
            None => None,
        }
    }

    /// Looks up field `key` of an object (`None` for non-objects and absent fields).
    pub fn get(&self, key: &str) -> (r: Option<&JsonValue>)
        ensures
            r matches Some(v) ==> self.spec_field(key@) == Some(*v),
            r is None <==> self.spec_field(key@) is None,
    {
        match self {
            JsonValue::Object(fields) => {
                let k = key.to_owned();
                fields.lookup(&k)
            },
            _ => None,
        }
    }

    /// The text of a JSON string (`None` for every other kind of value).
    pub fn as_str(&self) -> (r: Option<&str>)
        ensures
            r matches Some(s) ==> self.spec_text() == Some(s@),
            r is None <==> self.spec_text() is None,
    {
        match self {
            JsonValue::Text(s) => Some(s.as_str()),
            _ => None,
        }
    }

    /// The text of field `key` when it holds a JSON string.
    pub fn text_field(&self, key: &str) -> (r: Option<String>)
        ensures
            r matches Some(s) ==> self.spec_text_field(key@) == Some(s@),
            r is None <==> self.spec_text_field(key@) is None,
    {
        match self.get(key) {
            Some(v) => match v.as_str() {
                Some(s) => Some(s.to_owned()),
                None => None,
            },
            None => None,
        }
    }

    /// Returns `true` for JSON strings.
    pub fn is_string(&self) -> (b: bool)
        ensures
            b == (self is Text),
    {
        match self {
            JsonValue::Text(_) => true,
            _ => false,
        }
    }

    /// Returns `true` for JSON numbers.
    pub fn is_number(&self) -> (b: bool)
        ensures
            b == (self is Number),
    {
        match self {
            JsonValue::Number(_) => true,
            _ => false,
        }
    }

    /// Returns `true` for JSON booleans.
    pub fn is_boolean(&self) -> (b: bool)
        ensures
            b == (self is Bool),
    {
        match self {
            JsonValue::Bool(_) => true,
            _ => false,
        }
    }

    /// A JSON string holding `s`.
    pub fn text(s: &str) -> (v: JsonValue)
        ensures
            v matches JsonValue::Text(t) && t@ == s@,
    {
        JsonValue::Text(s.to_owned())
    }

    /// A JSON number with a fraction or exponent, written as `text`.
    pub fn float(text: &str) -> (v: JsonValue)
        ensures
            v matches JsonValue::Number(JsonNumber::Float(t)) && t@ == text@,
    {
        JsonValue::Number(JsonNumber::Float(text.to_owned()))
    }

    /// A JSON number holding the integer `n`.
    pub fn uint(n: u64) -> (v: JsonValue)
        ensures
            v == JsonValue::Number(JsonNumber::PosInt(n)),
    {
        JsonValue::Number(JsonNumber::PosInt(n))
    }

    /// A JSON object with the given fields, in the given order.
    pub fn object(pairs: Vec<(String, JsonValue)>) -> (v: JsonValue)
        ensures
            v == JsonValue::Object(JsonFields::from_seq(pairs@)),
    {
        JsonValue::Object(fields_from_vec(pairs))
    }

    /// A JSON array with the given elements, in the given order.
    pub fn array(items: Vec<JsonValue>) -> (v: JsonValue)
        ensures
            v == JsonValue::Array(JsonList::from_seq(items@)),
    {
        let ghost all = items@;
        let mut items = items;
        let mut acc = JsonList::Nil;
        while items.len() > 0
            invariant
                items@.len() <= all.len(),
                items@ == all.take(items@.len() as int),
                acc == JsonList::from_seq(all.skip(items@.len() as int)),
            decreases items.len(),
        {
            let ghost n = items@.len();
            let v = items.pop().unwrap();
            proof {
                assert(all.skip(n - 1).drop_first() =~= all.skip(n as int));
                assert(all.skip(n - 1)[0] == v);
                assert(items@ =~= all.take(n - 1));
            }
            acc = JsonList::Cons(Box::new(v), Box::new(acc));
        }
        proof {
            assert(all.skip(0) =~= all);
        }
        JsonValue::Array(acc)
    }
}

/// The list built from a sequence holds that sequence.
pub proof fn lemma_list_from_seq(s: Seq<JsonValue>)
    ensures
        JsonList::from_seq(s).spec_items() == s,
    decreases s.len(),
{
    if s.len() > 0 {
        lemma_list_from_seq(s.drop_first());
        assert(seq![s[0]] + s.drop_first() == s);
    }
}

/// The field `name: value` in front of `rest`.
pub fn field(name: &str, value: JsonValue, rest: JsonFields) -> (f: JsonFields)
    ensures
        f matches JsonFields::Cons(k, v, r) && k@ == name@ && *v == value && *r == rest,
        f.spec_len() == rest.spec_len() + 1,
        f.spec_lookup(name@) == Some(value),
        forall|key: Seq<char>| key != name@ ==> f.spec_lookup(key) == rest.spec_lookup(key),
{
    JsonFields::Cons(name.to_owned(), Box::new(value), Box::new(rest))
}

/// Builds the field list holding `pairs` in order.
pub fn fields_from_vec(pairs: Vec<(String, JsonValue)>) -> (f: JsonFields)
    ensures
        f == JsonFields::from_seq(pairs@),
{
    let ghost all = pairs@;
    let mut pairs = pairs;
    let mut acc = JsonFields::Nil;
    while pairs.len() > 0
        invariant
            pairs@.len() <= all.len(),
            pairs@ == all.take(pairs@.len() as int),
            acc == JsonFields::from_seq(all.skip(pairs@.len() as int)),
        decreases pairs.len(),
    {
        let ghost n = pairs@.len();
        let (k, v) = pairs.pop().unwrap();
        proof {
            assert(all.skip(n - 1).drop_first() =~= all.skip(n as int));
            assert(all.skip(n - 1)[0] == (k, v));
            assert(pairs@ =~= all.take(n - 1));
        }
        acc = JsonFields::Cons(k, Box::new(v), Box::new(acc));
    }
    proof {
        assert(all.skip(0) =~= all);
    }
    acc
}

/// A copy of `v`, equal to it.
pub fn clone_value(v: &JsonValue) -> (r: JsonValue)
    ensures
        r == *v,
    decreases v,
{
    match v {
        JsonValue::Null => JsonValue::Null,
        JsonValue::Bool(b) => JsonValue::Bool(*b),
        JsonValue::Number(n) => JsonValue::Number(clone_number(n)),
        JsonValue::Text(s) => JsonValue::Text(s.clone()),
        JsonValue::Array(items) => JsonValue::Array(clone_list(items)),
        JsonValue::Object(fields) => JsonValue::Object(clone_fields(fields)),
    }
}

/// A copy of `n`, equal to it.
pub fn clone_number(n: &JsonNumber) -> (r: JsonNumber)
    ensures
        r == *n,
{
    match n {
        JsonNumber::PosInt(u) => JsonNumber::PosInt(*u),
        JsonNumber::NegInt(i) => JsonNumber::NegInt(*i),
        JsonNumber::Float(t) => JsonNumber::Float(t.clone()),
    }
}

/// A copy of `l`, equal to it.
pub fn clone_list(l: &JsonList) -> (r: JsonList)
    ensures
        r == *l,
    decreases l,
{
    match l {
        JsonList::Nil => JsonList::Nil,
        JsonList::Cons(v, rest) => JsonList::Cons(Box::new(clone_value(v)), Box::new(clone_list(rest))),
    }
}

/// A copy of `f`, equal to it.
pub fn clone_fields(f: &JsonFields) -> (r: JsonFields)
    ensures
        r == *f,
    decreases f,
{
    match f {
        JsonFields::Nil => JsonFields::Nil,
        JsonFields::Cons(k, v, rest) => JsonFields::Cons(
            k.clone(),
            Box::new(clone_value(v)),
            Box::new(clone_fields(rest)),
        ),
    }
}

impl Clone for JsonValue {
    fn clone(&self) -> (r: Self)
        ensures
            r == *self,
    {
        clone_value(self)
    }
}

impl Clone for JsonNumber {
    fn clone(&self) -> (r: Self)
        ensures
            r == *self,
    {
        clone_number(self)
    }
}

impl Clone for JsonList {
    fn clone(&self) -> (r: Self)
        ensures
            r == *self,
    {
        clone_list(self)
    }
}

impl Clone for JsonFields {
    fn clone(&self) -> (r: Self)
        ensures
            r == *self,
    {
        clone_fields(self)
    }
}

} // verus!
