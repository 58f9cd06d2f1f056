//! Cells: the identity primitive every Knot is built on.
//!
//! A cell carries a global identity (a UUID), a process-local numeric id and
//! human-readable metadata.

use vstd::prelude::*;
use crate::ids::{new_id, is_v4, id_to_string, uuid_text};
use crate::text::{debug_text, debug_string, decimal, push_str, push_decimal, string_of};

verus! {

/// A numeric identifier unique within one running process.
pub type LocalId = u64;

/// Human-readable descriptors attached to every cell.
#[derive(Debug, PartialEq, Eq)]
pub struct CellMeta {
    /// A short name (for example `"UserService"`).
    pub name: String,
    /// An optional free-form description.
    pub description: Option<String>,
}

/// A copy of an optional string, equal to it.
pub fn clone_opt_string(s: &Option<String>) -> (r: Option<String>)
    ensures
        r == *s,
{
    match s {
        Some(t) => Some(t.clone()),
        None => None,
    }
}

impl CellMeta {
    /// Metadata with a name and no description.
    pub fn new(name: &str) -> (m: Self)
        ensures
            m.name@ == name@,
            m.description is None,
    {
        CellMeta { name: name.to_owned(), description: None }
    }

    /// Metadata with both a name and a description.
    pub fn with_description(name: &str, description: &str) -> (m: Self)
        ensures
            m.name@ == name@,
            m.description matches Some(d) && d@ == description@,
    {
        CellMeta { name: name.to_owned(), description: Some(description.to_owned()) }
    }
}

impl Clone for CellMeta {
    fn clone(&self) -> (r: Self)
        ensures
            r == *self,
    {
        CellMeta { name: self.name.clone(), description: clone_opt_string(&self.description) }
    }
}

/// The smallest addressable entity: global id, local id and metadata.
#[derive(Debug, PartialEq, Eq)]
pub struct Cell {
    id: u128,
    local_id: LocalId,
    meta: CellMeta,
}

impl Cell {
    /// The global identity.
    pub closed spec fn spec_id(&self) -> u128 {
        self.id
    }

    /// The local identity.
    pub closed spec fn spec_local_id(&self) -> LocalId {
        self.local_id
    }

    /// The metadata.
    pub closed spec fn spec_meta(&self) -> CellMeta {
        self.meta
    }

    /// A cell with a freshly drawn version-4 UUID.
    pub fn new(local_id: LocalId, meta: CellMeta) -> (c: Self)
        ensures
            is_v4(c.spec_id()),
            c.spec_local_id() == local_id,
            c.spec_meta() == meta,
    {
        Cell { id: new_id(), local_id, meta }
    }

    /// Rebuilds a cell from stored parts.
    pub fn from_parts(id: u128, local_id: LocalId, meta: CellMeta) -> (c: Self)
        ensures
            c.spec_id() == id,
            c.spec_local_id() == local_id,
            c.spec_meta() == meta,
    {
        Cell { id, local_id, meta }
    }

    /// The global identity.
    pub fn id(&self) -> (r: u128)
        ensures
            r == self.spec_id(),
    {
        self.id
    }

    /// The local identity.
    pub fn local_id(&self) -> (r: LocalId)
        ensures
            r == self.spec_local_id(),
    {
        self.local_id
    }

    /// The metadata.
    pub fn meta(&self) -> (r: &CellMeta)
        ensures
            *r == self.spec_meta(),
    {
        &self.meta
    }

    /// The metadata, for in-place updates; the identities stay as they are.
    pub fn meta_mut(&mut self) -> (r: &mut CellMeta)
        ensures
            *r == old(self).spec_meta(),
            final(self).spec_meta() == *final(r),
            final(self).spec_id() == old(self).spec_id(),
            final(self).spec_local_id() == old(self).spec_local_id(),
    {
        &mut self.meta
    }
}

impl Cell {
    /// A one-line description: `Cell { id: <uuid>, local_id: <n>, name: <name as Debug> }`.
    pub fn describe(&self) -> (s: String)
        ensures
            s@ == "Cell { id: "@ + uuid_text(self.spec_id()) + ", local_id: "@ + decimal(self.spec_local_id() as nat)
                + ", name: "@ + debug_text(self.spec_meta().name@) + " }"@,
    {
        let mut out: Vec<char> = Vec::new();
        push_str(&mut out, "Cell { id: ");
        push_str(&mut out, id_to_string(self.id).as_str());
        push_str(&mut out, ", local_id: ");
        push_decimal(&mut out, self.local_id);
        push_str(&mut out, ", name: ");
        push_str(&mut out, debug_string(self.meta.name.as_str()).as_str());
        push_str(&mut out, " }");
        proof {
            assert(out@ =~= "Cell { id: "@ + uuid_text(self.spec_id()) + ", local_id: "@ + decimal(self.spec_local_id() as nat)
                + ", name: "@ + debug_text(self.spec_meta().name@) + " }"@);
        }
        string_of(&out)
    }
}

} // verus!
