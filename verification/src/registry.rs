//! The registry: a directory of all Knots with their topology position and
//! the property state of Object Knots.

use vstd::prelude::*;
use crate::assoc::{AssocMap, first_index, lookup, lemma_first_index, lemma_first_index_unique};
use crate::cell::CellMeta;
use crate::knot::KnotRole;
use crate::json::JsonValue;
use crate::state::{PropertyMap, clone_property_map};

verus! {

/// A snapshot of one Knot's identity and topology position.
#[derive(Debug)]
pub struct RegistryEntry {
    /// Global identity.
    pub id: u128,
    /// Process-local identity.
    pub local_id: u64,
    /// Name and optional description.
    pub meta: CellMeta,
    /// Functional role.
    pub role: KnotRole,
    /// Depth in the topology tree (0 is the root).
    pub level: u32,
    /// Identity of the parent, `None` for the root.
    pub parent_id: Option<u128>,
    /// Identity of the class the Knot was made from, if any.
    pub class_id: Option<u128>,
    /// Identities of the registered children.
    pub child_ids: Vec<u128>,
}

/// A registry entry with its child list as a sequence.
pub struct EntryView {
    pub id: u128,
    pub local_id: u64,
    pub meta: CellMeta,
    pub role: KnotRole,
    pub level: u32,
    pub parent_id: Option<u128>,
    pub class_id: Option<u128>,
    pub child_ids: Seq<u128>,
}

impl View for RegistryEntry {
    type V = EntryView;

    open spec fn view(&self) -> EntryView {
        EntryView {
            id: self.id,
            local_id: self.local_id,
            meta: self.meta,
            role: self.role,
            level: self.level,
            parent_id: self.parent_id,
            class_id: self.class_id,
            child_ids: self.child_ids@,
        }
    }
}

/// A copy of a list of identities with the same contents.
pub fn clone_ids(ids: &Vec<u128>) -> (r: Vec<u128>)
    ensures
        r@ == ids@,
{
    let mut r: Vec<u128> = Vec::new();
    let mut i: usize = 0;
    while i < ids.len()
        invariant
            i <= ids@.len(),
            r@ == ids@.take(i as int),
        decreases ids.len() - i,
    {
        r.push(ids[i]);
        proof { assert(r@ =~= ids@.take(i + 1)); }
        i = i + 1;
    }
    proof { assert(r@ =~= ids@); }
    r
}

impl Clone for RegistryEntry {
    fn clone(&self) -> (r: Self)
        ensures
            r@ == self@,
    {
        RegistryEntry {
            id: self.id,
            local_id: self.local_id,
            meta: self.meta.clone(),
            role: self.role,
            level: self.level,
            parent_id: self.parent_id,
            class_id: self.class_id,
            child_ids: clone_ids(&self.child_ids),
        }
    }
}

/// The directory of all Knots, with the property state of Object Knots.
pub struct KnotRegistry {
    entries: AssocMap<u128, RegistryEntry>,
    states: AssocMap<u128, PropertyMap>,
}

impl KnotRegistry {
    #[verifier::type_invariant]
    spec fn inv(self) -> bool {
        forall|k: u128| self.entries@.contains_key(k) ==> #[trigger] self.entries@[k].id == k
    }

    /// The entries by identity, as views.
    pub closed spec fn spec_entries(&self) -> Map<u128, EntryView> {
        Map::new(|id: u128| self.entries@.contains_key(id), |id: u128| self.entries@[id]@)
    }

    /// The entries in iteration order, as views.
    pub closed spec fn spec_order(&self) -> Seq<EntryView> {
        Seq::new(self.entries.items().len(), |i: int| self.entries.items()[i].1@)
    }

    /// The tracked property states by identity.
    pub closed spec fn spec_states(&self) -> Map<u128, Map<Seq<char>, JsonValue>> {
        Map::new(|id: u128| self.states@.contains_key(id), |id: u128| self.states@[id]@)
    }

    /// An empty registry.
    pub fn new() -> (r: Self)
        ensures
            r.spec_entries() == Map::<u128, EntryView>::empty(),
            r.spec_states() == Map::<u128, Map<Seq<char>, JsonValue>>::empty(),
            r.spec_order().len() == 0,
    {
        let r = KnotRegistry { entries: AssocMap::new(), states: AssocMap::new() };
        assert(r.spec_entries() =~= Map::<u128, EntryView>::empty());
        assert(r.spec_states() =~= Map::<u128, Map<Seq<char>, JsonValue>>::empty());
        r
    }

    /// A snapshot of every entry, in the order of first registration.
    pub fn all(&self) -> (r: Vec<RegistryEntry>)
        ensures
            r@.len() == self.spec_order().len(),
            forall|i: int| 0 <= i < r@.len() ==> #[trigger] r@[i]@ == self.spec_order()[i],
            forall|id: u128| self.spec_entries().contains_key(id) <==>
                exists|i: int| 0 <= i < r@.len() && #[trigger] r@[i]@.id == id,
    {
        self.entries.facts();
        let n = self.entries.len();
        let mut r: Vec<RegistryEntry> = Vec::new();
        let mut i: usize = 0;
        while i < n
            invariant
                i <= n,
                n == self.entries.items().len(),
                self.entries@ == crate::assoc::pairs_map(self.entries.items()),
                crate::assoc::keys_distinct(self.entries.items()),
                self.entries.items().len() == self.entries@.dom().len(),
                r@.len() == i,
                forall|j: int| 0 <= j < i ==> #[trigger] r@[j]@ == self.entries.items()[j].1@,
            decreases n - i,
        {
            let e = self.entries.value_at(i).clone();
            r.push(e);
            i = i + 1;
        }
        proof {
            use_type_invariant(self);
            let s = self.entries.items();
            assert forall|id: u128| self.spec_entries().contains_key(id) implies
                exists|i: int| 0 <= i < r@.len() && #[trigger] r@[i]@.id == id by {
                lemma_first_index(s, id);
                let f = first_index(s, id);
                assert(self.entries@.contains_key(id));
                assert(lookup(s, id) is Some);
                assert(f >= 0);
                assert(self.entries@[id] == s[f].1);
                assert(self.entries@[id].id == id);
                assert(r@[f]@.id == id);
            }
            assert forall|id: u128| (exists|i: int| 0 <= i < r@.len() && #[trigger] r@[i]@.id == id)
                implies self.spec_entries().contains_key(id) by {
                let i = choose|i: int| 0 <= i < r@.len() && #[trigger] r@[i]@.id == id;
                let k = s[i].0;
                assert forall|j: int| 0 <= j < i implies s[j].0@ != k@ by {
                }
                lemma_first_index_unique(s, k, i);
                assert(lookup(s, k) == Some(s[i].1));
                assert(self.entries@.contains_key(k));
                assert(self.entries@[k] == s[i].1);
                assert(self.entries@[k].id == k);
            }
        }
        r
    }

    /// The entry of `id`, if registered.
    pub fn get(&self, id: &u128) -> (r: Option<RegistryEntry>)
        ensures
            r matches Some(e) ==> self.spec_entries().contains_key(*id) && e@ == self.spec_entries()[*id]
                && e.id == *id,
            r is None <==> !self.spec_entries().contains_key(*id),
    {
        proof { use_type_invariant(self); }
        match self.entries.get(id) {
            Some(e) => Some(e.clone()),
            None => None,
        }
    }

    /// A copy of the property state of `id`, if tracked.
    pub fn get_state_snapshot(&self, id: &u128) -> (r: Option<PropertyMap>)
        ensures
            r matches Some(m) ==> self.spec_states().contains_key(*id) && m@ == self.spec_states()[*id],
            r is None <==> !self.spec_states().contains_key(*id),
    {
        match self.states.get(id) {
            Some(m) => Some(clone_property_map(m)),
            None => None,
        }
    }

    /// Inserts or replaces the entry of `entry.id`.
    pub fn upsert(&mut self, entry: RegistryEntry)
        ensures
            final(self).spec_entries() == old(self).spec_entries().insert(entry.id, entry@),
            final(self).spec_states() == old(self).spec_states(),
            !old(self).spec_entries().contains_key(entry.id) ==> final(self).spec_order() == old(self).spec_order().push(entry@),
            old(self).spec_entries().contains_key(entry.id) ==> final(self).spec_order().len() == old(self).spec_order().len(),
    {
        proof { use_type_invariant(&*self); }
        let ghost ev = entry@;
        let id = entry.id;
        let mut entries: AssocMap<u128, RegistryEntry> = AssocMap::new();
        std::mem::swap(&mut entries, &mut self.entries);
        entries.insert(id, entry);
        self.entries = entries;
        assert(self.spec_entries() =~= old(self).spec_entries().insert(id, ev));
        assert(self.spec_states() =~= old(self).spec_states());
        proof {
            if !old(self).spec_entries().contains_key(id) {
                assert(self.spec_order() =~= old(self).spec_order().push(ev));
            }
        }
    }

    /// Removes the entry and the tracked state of `id`.
    pub fn remove(&mut self, id: &u128)
        ensures
            final(self).spec_entries() == old(self).spec_entries().remove(*id),
            final(self).spec_states() == old(self).spec_states().remove(*id),
    {
        proof { use_type_invariant(&*self); }
        let mut entries: AssocMap<u128, RegistryEntry> = AssocMap::new();
        std::mem::swap(&mut entries, &mut self.entries);
        entries.remove(id);
        self.entries = entries;
        let mut states: AssocMap<u128, PropertyMap> = AssocMap::new();
        std::mem::swap(&mut states, &mut self.states);
        states.remove(id);
        self.states = states;
        assert(self.spec_entries() =~= old(self).spec_entries().remove(*id));
        assert(self.spec_states() =~= old(self).spec_states().remove(*id));
    }

    /// Sets one property in the state of `knot_id`, starting from an empty
    /// state when none is tracked yet.
    pub fn set_state(&mut self, knot_id: u128, property: String, value: JsonValue)
        ensures
            final(self).spec_entries() == old(self).spec_entries(),
            final(self).spec_states() == old(self).spec_states().insert(
                knot_id,
                (if old(self).spec_states().contains_key(knot_id) {
                    old(self).spec_states()[knot_id]
                } else {
                    Map::<Seq<char>, JsonValue>::empty()
                }).insert(property@, value),
            ),
    {
        proof { use_type_invariant(&*self); }
        let ghost pv = property@;
        let mut states: AssocMap<u128, PropertyMap> = AssocMap::new();
        std::mem::swap(&mut states, &mut self.states);
        let mut m: PropertyMap = match states.remove(&knot_id) {
            Some(m) => m,
            None => AssocMap::new(),
        };
        m.insert(property, value);
        states.insert(knot_id, m);
        self.states = states;
        assert(self.spec_entries() =~= old(self).spec_entries());
        assert(self.spec_states() =~= old(self).spec_states().insert(
            knot_id,
            (if old(self).spec_states().contains_key(knot_id) {
                old(self).spec_states()[knot_id]
            } else {
                Map::<Seq<char>, JsonValue>::empty()
            }).insert(pv, value),
        ));
    }
}

impl Default for KnotRegistry {
    fn default() -> (r: Self)
        ensures
            r.spec_entries() == Map::<u128, EntryView>::empty(),
            r.spec_states() == Map::<u128, Map<Seq<char>, JsonValue>>::empty(),
            r.spec_order().len() == 0,
    {
        KnotRegistry::new()
    }
}

impl KnotRegistry {
    /// Registers `child` in the child list of `parent`, unless it is there
    /// already. Nothing changes when `parent` is not registered.
    pub fn add_child_id(&mut self, parent: &u128, child: u128)
        ensures
            final(self).spec_states() == old(self).spec_states(),
            !old(self).spec_entries().contains_key(*parent) ==> final(self).spec_entries() == old(self).spec_entries(),
            old(self).spec_entries().contains_key(*parent) ==> final(self).spec_entries()
                == old(self).spec_entries().insert(*parent, EntryView {
                    child_ids: if old(self).spec_entries()[*parent].child_ids.contains(child) {
                        old(self).spec_entries()[*parent].child_ids
                    } else {
                        old(self).spec_entries()[*parent].child_ids.push(child)
                    },
                    ..old(self).spec_entries()[*parent]
                }),
    {
        match self.get(parent) {
            None => {},
            Some(e) => {
                let mut e = e;
                let mut found = false;
                let mut i: usize = 0;
                while i < e.child_ids.len()
                    invariant
                        i <= e.child_ids@.len(),
                        found == (exists|j: int| 0 <= j < i && e.child_ids@[j] == child),
                    decreases e.child_ids.len() - i,
                {
                    if e.child_ids[i] == child {
                        found = true;
                    }
                    i = i + 1;
                }
                if !found {
                    e.child_ids.push(child);
                }
                let ghost ev = e@;
                self.upsert(e);
                proof {
                    let old_view = old(self).spec_entries()[*parent];
                    let new_view = EntryView {
                        child_ids: if old_view.child_ids.contains(child) {
                            old_view.child_ids
                        } else {
                            old_view.child_ids.push(child)
                        },
                        ..old_view
                    };
                    assert(ev == new_view);
                }
            },
        }
    }

    /// Removes `id` from the child list of every entry.
    pub fn remove_child_id_everywhere(&mut self, id: &u128)
        ensures
            final(self).spec_states() == old(self).spec_states(),
            final(self).spec_entries().dom() == old(self).spec_entries().dom(),
            forall|k: u128| #[trigger] final(self).spec_entries().contains_key(k) ==>
                final(self).spec_entries()[k] == without_child(old(self).spec_entries()[k], *id),
    {
        let snapshot = self.all();
        let mut i: usize = 0;
        while i < snapshot.len()
            invariant
                i <= snapshot@.len(),
                forall|j: int| 0 <= j < snapshot@.len() ==> old(self).spec_entries().contains_key(#[trigger] snapshot@[j]@.id),
                forall|k: u128| old(self).spec_entries().contains_key(k) ==>
                    exists|j: int| 0 <= j < snapshot@.len() && #[trigger] snapshot@[j]@.id == k,
                self.spec_states() == old(self).spec_states(),
                self.spec_entries().dom() == old(self).spec_entries().dom(),
                forall|k: u128| #[trigger] self.spec_entries().contains_key(k) ==>
                    self.spec_entries()[k] == if exists|j: int| 0 <= j < i && #[trigger] snapshot@[j]@.id == k {
                        without_child(old(self).spec_entries()[k], *id)
                    } else {
                        old(self).spec_entries()[k]
                    },
            decreases snapshot.len() - i,
        {
            let k = snapshot[i].id;
            let ghost before = self.spec_entries();
            match self.get(&k) {
                None => {},
                Some(e) => {
                    let mut e = e;
                    e.child_ids = ids_without(&e.child_ids, *id);
                    proof {
                        lemma_without_idempotent(old(self).spec_entries()[k].child_ids, *id);
                    }
                    self.upsert(e);
                    proof {
                        assert(self.spec_entries().dom() =~= before.dom());
                        assert forall|kk: u128| #[trigger] self.spec_entries().contains_key(kk) implies
                            self.spec_entries()[kk] == if exists|j: int| 0 <= j < i + 1 && #[trigger] snapshot@[j]@.id == kk {
                                without_child(old(self).spec_entries()[kk], *id)
                            } else {
                                old(self).spec_entries()[kk]
                            } by {
                            if kk == k {
                                assert(snapshot@[i as int]@.id == kk);
                            } else {
                                if exists|j: int| 0 <= j < i + 1 && #[trigger] snapshot@[j]@.id == kk {
                                    let j = choose|j: int| 0 <= j < i + 1 && #[trigger] snapshot@[j]@.id == kk;
                                    assert(j < i);
                                }
                            }
                        }
                    }
                },
            }
            i = i + 1;
        }
        proof {
            assert forall|k: u128| #[trigger] self.spec_entries().contains_key(k) implies
                self.spec_entries()[k] == without_child(old(self).spec_entries()[k], *id) by {
                assert(exists|j: int| 0 <= j < snapshot@.len() && #[trigger] snapshot@[j]@.id == k);
            }
        }
    }

    /// Makes `parent` the parent of `child`, at depth `level`. Nothing
    /// changes when `child` is not registered.
    pub fn set_parent(&mut self, child: &u128, parent: u128, level: u32)
        ensures
            final(self).spec_states() == old(self).spec_states(),
            !old(self).spec_entries().contains_key(*child) ==> final(self).spec_entries() == old(self).spec_entries(),
            old(self).spec_entries().contains_key(*child) ==> final(self).spec_entries()
                == old(self).spec_entries().insert(*child, EntryView {
                    parent_id: Some(parent),
                    level,
                    ..old(self).spec_entries()[*child]
                }),
    {
        match self.get(child) {
            None => {},
            Some(e) => {
                let mut e = e;
                e.parent_id = Some(parent);
                e.level = level;
                self.upsert(e);
            },
        }
    }

    /// Renames `id` and/or replaces its description; absent arguments leave
    /// the field as it is. Nothing changes when `id` is not registered.
    pub fn update_meta(&mut self, id: &u128, name: Option<String>, description: Option<String>)
        ensures
            final(self).spec_states() == old(self).spec_states(),
            !old(self).spec_entries().contains_key(*id) ==> final(self).spec_entries() == old(self).spec_entries(),
            old(self).spec_entries().contains_key(*id) ==> final(self).spec_entries()
                == old(self).spec_entries().insert(*id, EntryView {
                    meta: CellMeta {
                        name: match name { Some(n) => n, None => old(self).spec_entries()[*id].meta.name },
                        description: match description {
                            Some(d) => Some(d),
                            None => old(self).spec_entries()[*id].meta.description,
                        },
                    },
                    ..old(self).spec_entries()[*id]
                }),
    {
        match self.get(id) {
            None => {},
            Some(e) => {
                let mut e = e;
                match name {
                    Some(n) => { e.meta.name = n; },
                    None => {},
                }
                match description {
                    Some(d) => { e.meta.description = Some(d); },
                    None => {},
                }
                self.upsert(e);
            },
        }
    }
}

/// An entry view with `x` removed from its child list.
pub open spec fn without_child(e: EntryView, x: u128) -> EntryView {
    EntryView { child_ids: without(e.child_ids, x), ..e }
}

/// Removing the same identity twice is the same as removing it once.
pub proof fn lemma_without_idempotent(s: Seq<u128>, x: u128)
    ensures
        without(without(s, x), x) == without(s, x),
    decreases s.len(),
{
    if s.len() > 0 {
        lemma_without_idempotent(s.drop_last(), x);
        if s.last() != x {
            let w = without(s.drop_last(), x);
            assert(w.push(s.last()).drop_last() == w);
        }
    }
}

/// `s` with every occurrence of `x` removed.
pub open spec fn without(s: Seq<u128>, x: u128) -> Seq<u128>
    decreases s.len(),
{
    if s.len() == 0 {
        s
    } else if s.last() == x {
        without(s.drop_last(), x)
    } else {
        without(s.drop_last(), x).push(s.last())
    }
}

/// A copy of `ids` without the occurrences of `x`.
pub fn ids_without(ids: &Vec<u128>, x: u128) -> (r: Vec<u128>)
    ensures
        r@ == without(ids@, x),
{
    let mut r: Vec<u128> = Vec::new();
    let mut i: usize = 0;
    while i < ids.len()
        invariant
            i <= ids@.len(),
            r@ == without(ids@.take(i as int), x),
        decreases ids.len() - i,
    {
        proof { assert(ids@.take(i + 1).drop_last() == ids@.take(i as int)); }
        if ids[i] != x {
            r.push(ids[i]);
        }
        i = i + 1;
    }
    proof { assert(ids@.take(ids@.len() as int) == ids@); }
    r
}

/// `without(s, x)` holds no `x` and keeps every other element of `s`.
pub proof fn lemma_without_contains(s: Seq<u128>, x: u128, y: u128)
    ensures
        without(s, x).contains(y) <==> (s.contains(y) && y != x),
    decreases s.len(),
{
    if s.len() > 0 {
        lemma_without_contains(s.drop_last(), x, y);
        let p = s.drop_last();
        let w = without(p, x);
        if s.contains(y) && y != x {
            let i = choose|i: int| 0 <= i < s.len() && s[i] == y;
            if i < s.len() - 1 {
                assert(p[i] == y);
            }
            if s.last() != x {
                assert(w.push(s.last())[w.len() as int] == s.last());
            }
        }
        if without(s, x).contains(y) {
            if s.last() != x {
                let j = choose|j: int| 0 <= j < w.len() + 1 && w.push(s.last())[j] == y;
                if j < w.len() {
                    assert(w[j] == y);
                    let i = choose|i: int| 0 <= i < p.len() && p[i] == y;
                    assert(s[i] == y);
                } else {
                    assert(s[s.len() - 1] == y);
                }
            } else {
                let i = choose|i: int| 0 <= i < p.len() && p[i] == y;
                assert(s[i] == y);
            }
        }
        if s.last() != x {
            assert forall|z: u128| w.contains(z) implies w.push(s.last()).contains(z) by {
                let j = choose|j: int| 0 <= j < w.len() && w[j] == z;
                assert(w.push(s.last())[j] == z);
            }
        }
    }
}

/// A lookup right after an entry is upserted finds that entry.
pub proof fn law_registry_get_after_upsert(before: KnotRegistry, after: KnotRegistry, e: EntryView)
    requires
        after.spec_entries() == before.spec_entries().insert(e.id, e),
    ensures
        after.spec_entries().contains_key(e.id),
        after.spec_entries()[e.id] == e,
        forall|k: u128| k != e.id ==> (after.spec_entries().contains_key(k) <==> before.spec_entries().contains_key(k)),
{
}

/// After a Knot is removed, neither its entry nor its state is found.
pub proof fn law_registry_remove_forgets(before: KnotRegistry, after: KnotRegistry, id: u128)
    requires
        after.spec_entries() == before.spec_entries().remove(id),
        after.spec_states() == before.spec_states().remove(id),
    ensures
        !after.spec_entries().contains_key(id),
        !after.spec_states().contains_key(id),
{
}

/// A state snapshot right after a property write holds the written value
/// and every other property of that Knot as before.
pub proof fn law_registry_state_after_write(
    before: KnotRegistry,
    after: KnotRegistry,
    knot_id: u128,
    property: Seq<char>,
    value: JsonValue,
    other: Seq<char>,
)
    requires
        after.spec_states() == before.spec_states().insert(
            knot_id,
            (if before.spec_states().contains_key(knot_id) {
                before.spec_states()[knot_id]
            } else {
                Map::<Seq<char>, JsonValue>::empty()
            }).insert(property, value),
        ),
        other != property,
    ensures
        after.spec_states().contains_key(knot_id),
        after.spec_states()[knot_id].contains_key(property),
        after.spec_states()[knot_id][property] == value,
        before.spec_states().contains_key(knot_id) && before.spec_states()[knot_id].contains_key(other)
            ==> after.spec_states()[knot_id].contains_key(other)
                && after.spec_states()[knot_id][other] == before.spec_states()[knot_id][other],
{
}

/// Once an identity is removed from every child list, no entry lists it
/// and every other child stays listed.
pub proof fn law_unlisted_everywhere(before: Map<u128, EntryView>, after: Map<u128, EntryView>, id: u128, k: u128, c: u128)
    requires
        forall|j: u128| #[trigger] after.contains_key(j) ==> after[j] == without_child(before[j], id),
        after.contains_key(k),
    ensures
        !after[k].child_ids.contains(id),
        c != id ==> (after[k].child_ids.contains(c) <==> before[k].child_ids.contains(c)),
{
    lemma_without_contains(before[k].child_ids, id, id);
    lemma_without_contains(before[k].child_ids, id, c);
}

} // verus!
