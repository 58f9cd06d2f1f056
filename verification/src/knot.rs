//! Knots: the addressable units of the topology, their packet routing and
//! their role-specific packet handling.

use vstd::prelude::*;
use crate::action::{ActionContext, ActionOutput, EchoEngine, LogicEngine, ObjectSnapshot, REPLY_TTL_MS, echo_output, is_reply};
use crate::assoc::AssocMap;
use crate::cell::{CellMeta, LocalId};
use crate::class::{ClassDefinition, defaults_describe, is_class_json};
use crate::event::{DeadLetterReason, KnotEvent};
use crate::ids::{new_id, is_v4, id_to_string, uuid_text};
use crate::text::{debug_text, debug_string, decimal, push_str, push_decimal, string_of};
use crate::json::{JsonValue, JsonFields, clone_value, field};
use crate::object::{KnotEffect, object_effects, object_outcome, pushed};
use crate::packet::Packet;
use crate::registry::{KnotRegistry, RegistryEntry, EntryView, clone_ids};
use crate::state::{InMemoryStore, PropertyMap, StateKey, VolatileStore, clone_property_map};

verus! {

/// The functional role of a Knot.
#[derive(Debug, Clone, Copy, PartialEq, Eq)]
pub enum KnotRole {
    /// Coordinates a sub-system of child Knots.
    Hub,
    /// Runs a logic engine on delivered packets.
    Action,
    /// Holds property state initialised from a class.
    Object,
    /// Holds a class definition.
    Class,
}

impl KnotRole {
    /// The role's name.
    pub open spec fn spec_name(self) -> Seq<char> {
        match self {
            KnotRole::Hub => "Hub"@,
            KnotRole::Action => "Action"@,
            KnotRole::Object => "Object"@,
            KnotRole::Class => "Class"@,
        }
    }

    /// The role a name denotes, if any.
    pub open spec fn spec_from_name(name: Seq<char>) -> Option<KnotRole> {
        if name == "Hub"@ {
            Some(KnotRole::Hub)
        } else if name == "Action"@ {
            Some(KnotRole::Action)
        } else if name == "Object"@ {
            Some(KnotRole::Object)
        } else if name == "Class"@ {
            Some(KnotRole::Class)
        } else {
            None
        }
    }

    /// The role's name: `Hub`, `Action`, `Object` or `Class`.
    pub fn name(&self) -> (s: String)
        ensures
            s@ == self.spec_name(),
    {
        match self {
            KnotRole::Hub => "Hub".to_owned(),
            KnotRole::Action => "Action".to_owned(),
            KnotRole::Object => "Object".to_owned(),
            KnotRole::Class => "Class".to_owned(),
        }
    }

    /// The role named `name` (exactly `Hub`, `Action`, `Object` or `Class`).
    pub fn from_name(name: &str) -> (r: Option<KnotRole>)
        ensures
            r == KnotRole::spec_from_name(name@),
    {
        let n = name.to_owned();
        if n == "Hub".to_owned() {
            Some(KnotRole::Hub)
        } else if n == "Action".to_owned() {
            Some(KnotRole::Action)
        } else if n == "Object".to_owned() {
            Some(KnotRole::Object)
        } else if n == "Class".to_owned() {
            Some(KnotRole::Class)
        } else {
            None
        }
    }
}

/// Naming a role and reading the name back gives the same role.
pub proof fn law_role_name_round_trip(r: KnotRole)
    ensures
        KnotRole::spec_from_name(r.spec_name()) == Some(r),
{
    reveal_strlit("Hub");
    reveal_strlit("Action");
    reveal_strlit("Object");
    reveal_strlit("Class");
    assert("Hub"@.len() == 3 && "Action"@.len() == 6 && "Object"@.len() == 6 && "Class"@.len() == 5);
    assert("Action"@[0] != "Object"@[0]);
}

/// Role-specific state of a Knot.
pub enum KnotVariant {
    /// Hubs only route.
    Hub,
    /// Holds a class definition and answers with its schema.
    Class { definition: ClassDefinition },
    /// Holds a property map initialised from a class.
    Object { class_id: Option<u128>, shared_state: PropertyMap },
    /// Runs an engine on delivered packets, with access to linked objects.
    Action { engine: Box<dyn LogicEngine>, linked_object_ids: Vec<u128> },
}

/// Where a packet goes, by the routing rules taken in order.
#[derive(Debug, Clone, Copy, PartialEq, Eq)]
pub enum Route {
    /// The TTL has elapsed: dead letter.
    Expired,
    /// Addressed to this Knot: execute locally.
    Local,
    /// Addressed to a known child: forward down.
    Down,
    /// Unknown target and a parent exists: forward up.
    Up,
    /// Unknown target and no parent: dead letter.
    Unroutable,
}

/// An addressable unit of the topology.
pub struct Knot {
    id: u128,
    local_id: LocalId,
    meta: CellMeta,
    role: KnotRole,
    level: u32,
    parent_id: Option<u128>,
    has_parent_inbox: bool,
    children: Vec<u128>,
    variant: KnotVariant,
    volatile: InMemoryStore,
}

/// The identity and topology position of a Knot.
pub struct KnotShape {
    pub id: u128,
    pub local_id: LocalId,
    pub meta: CellMeta,
    pub role: KnotRole,
    pub level: u32,
    pub parent_id: Option<u128>,
    pub has_parent_inbox: bool,
    pub children: Seq<u128>,
}

/// `p` is the `class_schema` reply payload for `c`.
pub open spec fn is_class_schema(v: JsonValue, c: ClassDefinition) -> bool {
    &&& v.spec_object_len() == Some(2nat)
    &&& v.spec_text_field("op"@) == Some("class_schema"@)
    &&& v.spec_field("schema"@) matches Some(s) && is_class_json(s, c)
}

/// The effects an Action Knot produces from an engine's output: registry
/// mirrors of the property updates (when attached to a registry), an
/// `ActionExecuted` event when there are log lines, then the output packets
/// pushed into the Knot's own inbox.
pub open spec fn action_effects(knot_id: u128, engine_name: String, o: ActionOutput, sync: bool) -> Seq<KnotEffect> {
    (if sync {
        Seq::new(o.updates@.len(), |i: int| KnotEffect::SyncState {
            knot_id: o.updates@[i].object_id,
            property: o.updates@[i].property_name,
            value: o.updates@[i].value,
        })
    } else {
        Seq::empty()
    }) + (if o.logs@.len() > 0 {
        seq![KnotEffect::Emit(KnotEvent::ActionExecuted { knot_id, engine_name, logs: o.logs })]
    } else {
        Seq::empty()
    }) + Seq::new(o.packets@.len(), |i: int| KnotEffect::PushSelf { packet: o.packets@[i] })
}

/// The snapshots an Action Knot gathers for `linked` from `registry`: one
/// per linked identity with tracked state.
pub open spec fn snapshots_ok(objects: Map<u128, ObjectSnapshot>, linked: Seq<u128>, registry: Option<&KnotRegistry>) -> bool {
    match registry {
        None => objects == Map::<u128, ObjectSnapshot>::empty(),
        Some(reg) => {
            &&& forall|id: u128| objects.contains_key(id) <==> (linked.contains(id) && reg.spec_states().contains_key(id))
            &&& forall|id: u128| #[trigger] objects.contains_key(id) ==> {
                &&& objects[id].id == id
                &&& objects[id].properties@ == reg.spec_states()[id]
                &&& objects[id].class_id == if reg.spec_entries().contains_key(id) {
                        reg.spec_entries()[id].class_id
                    } else {
                        None
                    }
            }
        },
    }
}

/// Gathers snapshots of the linked objects whose state the registry tracks.
pub fn gather_snapshots(linked: &Vec<u128>, registry: Option<&KnotRegistry>) -> (objects: AssocMap<u128, ObjectSnapshot>)
    ensures
        snapshots_ok(objects@, linked@, registry),
{
    let mut objects: AssocMap<u128, ObjectSnapshot> = AssocMap::new();
    match registry {
        None => {},
        Some(reg) => {
            let mut i: usize = 0;
            while i < linked.len()
                invariant
                    i <= linked@.len(),
                    forall|id: u128| objects@.contains_key(id) <==> (linked@.take(i as int).contains(id) && reg.spec_states().contains_key(id)),
                    forall|id: u128| #[trigger] objects@.contains_key(id) ==> {
                        &&& objects@[id].id == id
                        &&& objects@[id].properties@ == reg.spec_states()[id]
                        &&& objects@[id].class_id == if reg.spec_entries().contains_key(id) {
                                reg.spec_entries()[id].class_id
                            } else {
                                None
                            }
                    },
                decreases linked.len() - i,
            {
                let id = linked[i];
                proof {
                    assert(linked@.take(i + 1) == linked@.take(i as int).push(id));
                }
                match reg.get_state_snapshot(&id) {
                    Some(state) => {
                        let class_id = match reg.get(&id) {
                            Some(e) => e.class_id,
                            None => None,
                        };
                        objects.insert(id, ObjectSnapshot { id, class_id, properties: state });
                    },
                    None => {},
                }
                proof {
                    assert forall|x: u128| objects@.contains_key(x) <==> (linked@.take(i + 1).contains(x) && reg.spec_states().contains_key(x)) by {
                        if linked@.take(i + 1).contains(x) && x != id {
                            let j = choose|j: int| 0 <= j < i + 1 && #[trigger] linked@.take(i + 1)[j] == x;
                            assert(linked@.take(i as int)[j] == x);
                        }
                        if linked@.take(i as int).contains(x) {
                            let j = choose|j: int| 0 <= j < i && #[trigger] linked@.take(i as int)[j] == x;
                            assert(linked@.take(i + 1)[j] == x);
                        }
                        if x == id {
                            assert(linked@.take(i + 1)[i as int] == x);
                        }
                    }
                }
                i = i + 1;
            }
            proof { assert(linked@.take(linked@.len() as int) == linked@); }
        },
    }
    proof {
        if registry is None {
            assert(objects@ =~= Map::<u128, ObjectSnapshot>::empty());
        }
    }
    objects
}

/// The effects an Action Knot produces from engine output `output`.
pub fn apply_action_output(knot_id: u128, engine_name: String, output: ActionOutput, sync: bool) -> (effects: Vec<KnotEffect>)
    ensures
        effects@ == action_effects(knot_id, engine_name, output, sync),
{
    let ghost o = output;
    let mut effects: Vec<KnotEffect> = Vec::new();
    if sync {
        let mut i: usize = 0;
        while i < output.updates.len()
            invariant
                i <= output.updates@.len(),
                output == o,
                effects@ == Seq::new(i as nat, |j: int| KnotEffect::SyncState {
                    knot_id: o.updates@[j].object_id,
                    property: o.updates@[j].property_name,
                    value: o.updates@[j].value,
                }),
            decreases output.updates.len() - i,
        {
            let u = &output.updates[i];
            effects.push(KnotEffect::SyncState {
                knot_id: u.object_id,
                property: u.property_name.clone(),
                value: clone_value(&u.value),
            });
            proof {
                assert(effects@ =~= Seq::new((i + 1) as nat, |j: int| KnotEffect::SyncState {
                    knot_id: o.updates@[j].object_id,
                    property: o.updates@[j].property_name,
                    value: o.updates@[j].value,
                }));
            }
            i = i + 1;
        }
    }
    let ghost first = effects@;
    let ActionOutput { updates, packets, logs } = output;
    if logs.len() > 0 {
        effects.push(KnotEffect::Emit(KnotEvent::ActionExecuted { knot_id, engine_name, logs }));
    }
    let ghost second = effects@;
    let mut i: usize = 0;
    while i < packets.len()
        invariant
            i <= packets@.len(),
            packets == o.packets,
            effects@ == second + Seq::new(i as nat, |j: int| KnotEffect::PushSelf { packet: o.packets@[j] }),
        decreases packets.len() - i,
    {
        let p = packets[i].clone();
        effects.push(KnotEffect::PushSelf { packet: p });
        proof {
            assert(effects@ =~= second + Seq::new((i + 1) as nat, |j: int| KnotEffect::PushSelf { packet: o.packets@[j] }));
        }
        i = i + 1;
    }
    proof {
        if sync {
            assert(first =~= Seq::new(o.updates@.len(), |i: int| KnotEffect::SyncState {
                knot_id: o.updates@[i].object_id,
                property: o.updates@[i].property_name,
                value: o.updates@[i].value,
            }));
        } else {
            assert(first =~= Seq::<KnotEffect>::empty());
        }
        assert(effects@ =~= action_effects(knot_id, engine_name, o, sync));
    }
    effects
}

/// Knot `k` holds the starting state of `role`: a Hub routes only; an
/// Action has no links; an Object has no class and no properties; a Class
/// holds an unnamed class with a fresh identity, no description and no
/// properties.
pub open spec fn starts_as(k: Knot, role: KnotRole) -> bool {
    &&& k.spec_kind() == role
    &&& match role {
        KnotRole::Hub => k.spec_class_id() is None && k.spec_definition() is None
            && k.spec_object_state() is None && k.spec_linked() is None,
        KnotRole::Action => k.spec_linked() == Some(Seq::<u128>::empty()) && k.spec_class_id() is None
            && k.spec_definition() is None && k.spec_object_state() is None
            && (forall|n: Seq<char>| #[trigger] k.spec_engine_names(n) == (n == "EchoEngine"@))
            && (forall|ctx: ActionContext, o: ActionOutput| #[trigger] k.spec_engine_produces(ctx, o) == echo_output(ctx, o)),
        KnotRole::Object => k.spec_class_id() is None && k.spec_definition() is None && k.spec_linked() is None
            && (k.spec_object_state() matches Some(m) && m@ == Map::<Seq<char>, JsonValue>::empty()),
        KnotRole::Class => k.spec_object_state() is None && k.spec_linked() is None
            && (k.spec_definition() matches Some(d) && d.name@ == Seq::<char>::empty() && d.description is None
                && d.properties@.len() == 0 && is_v4(d.id) && k.spec_class_id() == Some(d.id)),
    }
}

/// `s` has no repeated element.
pub open spec fn ids_distinct(s: Seq<u128>) -> bool {
    forall|i: int, j: int| 0 <= i < j < s.len() ==> s[i] != s[j]
}

impl Knot {
    /// Identity and topology position.
    pub closed spec fn spec_shape(&self) -> KnotShape {
        KnotShape {
            id: self.id,
            local_id: self.local_id,
            meta: self.meta,
            role: self.role,
            level: self.level,
            parent_id: self.parent_id,
            has_parent_inbox: self.has_parent_inbox,
            children: self.children@,
        }
    }

    /// The kind of the role-specific state.
    pub closed spec fn spec_kind(&self) -> KnotRole {
        match self.variant {
            KnotVariant::Hub => KnotRole::Hub,
            KnotVariant::Class { .. } => KnotRole::Class,
            KnotVariant::Object { .. } => KnotRole::Object,
            KnotVariant::Action { .. } => KnotRole::Action,
        }
    }

    /// The property map of an Object Knot.
    pub closed spec fn spec_object_state(&self) -> Option<PropertyMap> {
        match self.variant {
            KnotVariant::Object { shared_state, .. } => Some(shared_state),
            _ => None,
        }
    }

    /// The class definition of a Class Knot.
    pub closed spec fn spec_definition(&self) -> Option<ClassDefinition> {
        match self.variant {
            KnotVariant::Class { definition } => Some(definition),
            _ => None,
        }
    }

    /// The linked object identities of an Action Knot.
    pub closed spec fn spec_linked(&self) -> Option<Seq<u128>> {
        match self.variant {
            KnotVariant::Action { linked_object_ids, .. } => Some(linked_object_ids@),
            _ => None,
        }
    }

    /// `name` may be the name of an Action Knot's engine; false for other
    /// roles.
    pub closed spec fn spec_engine_names(&self, name: Seq<char>) -> bool {
        match self.variant {
            KnotVariant::Action { engine, .. } => engine.names(name),
            _ => false,
        }
    }

    /// `o` is an output an Action Knot's engine may return for `ctx`; false
    /// for other roles.
    pub closed spec fn spec_engine_produces(&self, ctx: ActionContext, o: ActionOutput) -> bool {
        match self.variant {
            KnotVariant::Action { engine, .. } => engine.produces(ctx, o),
            _ => false,
        }
    }

    /// The class an Object Knot was made from, or a Class Knot's own class.
    pub closed spec fn spec_class_id(&self) -> Option<u128> {
        match self.variant {
            KnotVariant::Object { class_id, .. } => class_id,
            KnotVariant::Class { definition } => Some(definition.id),
            _ => None,
        }
    }

    /// The volatile store's contents.
    pub closed spec fn spec_volatile(&self) -> Map<(u128, Seq<char>), JsonValue> {
        self.volatile@
    }

    /// The routing table holds each child once and the role matches the
    /// role-specific state.
    pub closed spec fn wf(&self) -> bool {
        &&& ids_distinct(self.children@)
        &&& self.spec_kind() == self.role
    }

    /// Where `packet` goes when `elapsed` nanoseconds have passed since its
    /// creation: TTL check, then local delivery, then a known child, then
    /// the parent, else nowhere.
    pub open spec fn spec_route(&self, packet: Packet, elapsed: u128) -> Route {
        if packet.spec_expired_after(elapsed) {
            Route::Expired
        } else if packet.target_id == self.spec_shape().id {
            Route::Local
        } else if self.spec_shape().children.contains(packet.target_id) {
            Route::Down
        } else if self.spec_shape().has_parent_inbox {
            Route::Up
        } else {
            Route::Unroutable
        }
    }

    fn new_with_variant(
        id: u128,
        local_id: LocalId,
        meta: CellMeta,
        role: KnotRole,
        variant: KnotVariant,
        level: u32,
        parent_id: Option<u128>,
        has_parent_inbox: bool,
    ) -> (k: Self)
        ensures
            k.spec_shape() == (KnotShape { id, local_id, meta, role, level, parent_id, has_parent_inbox, children: Seq::empty() }),
            k.spec_volatile() == Map::<(u128, Seq<char>), JsonValue>::empty(),
            k.variant == variant,
    {
        Knot {
            id,
            local_id,
            meta,
            role,
            level,
            parent_id,
            has_parent_inbox,
            children: Vec::new(),
            variant,
            volatile: InMemoryStore::new(),
        }
    }

    /// A Hub Knot with a fresh identity. `has_parent_inbox` says whether
    /// packets can be escalated to a parent.
    pub fn new_hub(local_id: LocalId, meta: CellMeta, level: u32, parent_id: Option<u128>, has_parent_inbox: bool) -> (k: Self)
        ensures
            k.wf(),
            is_v4(k.spec_shape().id),
            k.spec_shape() == (KnotShape { id: k.spec_shape().id, local_id, meta, role: KnotRole::Hub, level, parent_id,
                has_parent_inbox, children: Seq::empty() }),
            starts_as(k, KnotRole::Hub),
            k.spec_volatile() == Map::<(u128, Seq<char>), JsonValue>::empty(),
    {
        Self::new_with_variant(new_id(), local_id, meta, KnotRole::Hub, KnotVariant::Hub, level, parent_id, has_parent_inbox)
    }

    /// A Class Knot holding `definition`, with a fresh identity.
    pub fn new_class(
        local_id: LocalId,
        meta: CellMeta,
        definition: ClassDefinition,
        level: u32,
        parent_id: Option<u128>,
        has_parent_inbox: bool,
    ) -> (k: Self)
        ensures
            k.wf(),
            is_v4(k.spec_shape().id),
            k.spec_shape() == (KnotShape { id: k.spec_shape().id, local_id, meta, role: KnotRole::Class, level, parent_id,
                has_parent_inbox, children: Seq::empty() }),
            k.spec_kind() == KnotRole::Class,
            k.spec_definition() == Some(definition),
            k.spec_class_id() == Some(definition.id),
            k.spec_object_state() is None,
            k.spec_linked() is None,
            k.spec_volatile() == Map::<(u128, Seq<char>), JsonValue>::empty(),
    {
        Self::new_with_variant(new_id(), local_id, meta, KnotRole::Class, KnotVariant::Class { definition }, level,
            parent_id, has_parent_inbox)
    }

    /// An Object Knot with a fresh identity; with a class, its property map
    /// starts from the class's default state, else it starts empty.
    pub fn new_object(
        local_id: LocalId,
        meta: CellMeta,
        class: Option<&ClassDefinition>,
        level: u32,
        parent_id: Option<u128>,
        has_parent_inbox: bool,
    ) -> (k: Self)
        ensures
            k.wf(),
            is_v4(k.spec_shape().id),
            k.spec_shape() == (KnotShape { id: k.spec_shape().id, local_id, meta, role: KnotRole::Object, level, parent_id,
                has_parent_inbox, children: Seq::empty() }),
            k.spec_kind() == KnotRole::Object,
            k.spec_definition() is None,
            k.spec_linked() is None,
            k.spec_object_state() is Some,
            class matches Some(c) ==> (k.spec_class_id() == Some(c.id)
                && defaults_describe(c.properties@, k.spec_object_state()->0@)),
            class is None ==> (k.spec_class_id() is None
                && k.spec_object_state()->0@ == Map::<Seq<char>, JsonValue>::empty()),
            k.spec_volatile() == Map::<(u128, Seq<char>), JsonValue>::empty(),
    {
        let (class_id, state) = match class {
            Some(c) => (Some(c.id), c.default_state()),
            None => (None, AssocMap::new()),
        };
        Self::new_with_variant(new_id(), local_id, meta, KnotRole::Object,
            KnotVariant::Object { class_id, shared_state: state }, level, parent_id, has_parent_inbox)
    }

    /// An Action Knot running `engine`, with a fresh identity and no links.
    pub fn new_action(
        local_id: LocalId,
        meta: CellMeta,
        engine: Box<dyn LogicEngine>,
        level: u32,
        parent_id: Option<u128>,
        has_parent_inbox: bool,
    ) -> (k: Self)
        ensures
            k.wf(),
            is_v4(k.spec_shape().id),
            k.spec_shape() == (KnotShape { id: k.spec_shape().id, local_id, meta, role: KnotRole::Action, level, parent_id,
                has_parent_inbox, children: Seq::empty() }),
            k.spec_kind() == KnotRole::Action,
            k.spec_linked() == Some(Seq::<u128>::empty()),
            k.spec_class_id() is None,
            k.spec_definition() is None,
            k.spec_object_state() is None,
            k.spec_volatile() == Map::<(u128, Seq<char>), JsonValue>::empty(),
    {
        Self::new_with_variant(new_id(), local_id, meta, KnotRole::Action,
            KnotVariant::Action { engine, linked_object_ids: Vec::new() }, level, parent_id, has_parent_inbox)
    }

    /// The default state for a role: Hubs route, Actions echo, Objects start
    /// with no properties, Classes hold an unnamed class with no properties.
    fn default_variant(role: KnotRole) -> (v: KnotVariant)
        ensures
            role == KnotRole::Hub ==> v is Hub,
            role == KnotRole::Action ==> (v matches KnotVariant::Action { linked_object_ids, engine } && linked_object_ids@.len() == 0
                && (forall|n: Seq<char>| #[trigger] engine.names(n) == (n == "EchoEngine"@))
                && (forall|ctx: ActionContext, o: ActionOutput| #[trigger] engine.produces(ctx, o) == echo_output(ctx, o))),
            role == KnotRole::Object ==> (v matches KnotVariant::Object { class_id, shared_state }
                && class_id is None && shared_state@ == Map::<Seq<char>, JsonValue>::empty()),
            role == KnotRole::Class ==> (v matches KnotVariant::Class { definition }
                && definition.name@ == Seq::<char>::empty() && definition.properties@.len() == 0
                && definition.description is None && is_v4(definition.id)),
    {
        match role {
            KnotRole::Hub => KnotVariant::Hub,
            KnotRole::Action => KnotVariant::Action { engine: Box::new(EchoEngine), linked_object_ids: Vec::new() },
            KnotRole::Object => KnotVariant::Object { class_id: None, shared_state: AssocMap::new() },
            KnotRole::Class => {
                proof { reveal_strlit(""); }
                KnotVariant::Class { definition: ClassDefinition::new("") }
            },
        }
    }

    /// A Knot of `role` with a fresh identity and the role's default state
    /// (an echo engine for Actions, an empty property map for Objects, an
    /// unnamed empty class for Classes).
    pub fn new(local_id: LocalId, meta: CellMeta, role: KnotRole, level: u32, parent_id: Option<u128>, has_parent_inbox: bool) -> (k: Self)
        ensures
            k.wf(),
            is_v4(k.spec_shape().id),
            k.spec_shape() == (KnotShape { id: k.spec_shape().id, local_id, meta, role, level, parent_id,
                has_parent_inbox, children: Seq::empty() }),
            starts_as(k, role),
            k.spec_volatile() == Map::<(u128, Seq<char>), JsonValue>::empty(),
    {
        let variant = Self::default_variant(role);
        let k = Self::new_with_variant(new_id(), local_id, meta, role, variant, level, parent_id, has_parent_inbox);
        proof {
            if role == KnotRole::Action {
                assert(k.spec_linked() =~= Some(Seq::<u128>::empty()));
            }
        }
        k
    }

    /// A Knot rebuilt from stored parts, with the role's default state.
    pub fn from_parts(
        id: u128,
        local_id: LocalId,
        meta: CellMeta,
        role: KnotRole,
        level: u32,
        parent_id: Option<u128>,
        has_parent_inbox: bool,
    ) -> (k: Self)
        ensures
            k.wf(),
            k.spec_shape() == (KnotShape { id, local_id, meta, role, level, parent_id, has_parent_inbox, children: Seq::empty() }),
            starts_as(k, role),
            k.spec_volatile() == Map::<(u128, Seq<char>), JsonValue>::empty(),
    {
        let variant = Self::default_variant(role);
        let k = Self::new_with_variant(id, local_id, meta, role, variant, level, parent_id, has_parent_inbox);
        proof {
            if role == KnotRole::Action {
                assert(k.spec_linked() =~= Some(Seq::<u128>::empty()));
            }
        }
        k
    }

    /// Adds `child_id` to the routing table (once).
    pub fn attach_child(&mut self, child_id: u128)
        requires
            old(self).wf(),
        ensures
            final(self).wf(),
            final(self).spec_shape() == (KnotShape {
                children: if old(self).spec_shape().children.contains(child_id) {
                    old(self).spec_shape().children
                } else {
                    old(self).spec_shape().children.push(child_id)
                },
                ..old(self).spec_shape()
            }),
            final(self).spec_kind() == old(self).spec_kind(),
            final(self).spec_object_state() == old(self).spec_object_state(),
            final(self).spec_linked() == old(self).spec_linked(),
            final(self).spec_class_id() == old(self).spec_class_id(),
            final(self).spec_volatile() == old(self).spec_volatile(),
    {
        if !self.has_child(child_id) {
            self.children.push(child_id);
            proof {
                assert forall|i: int, j: int| 0 <= i < j < self.children@.len() implies self.children@[i] != self.children@[j] by {
                    if j == self.children@.len() - 1 {
                        assert(old(self).children@[i] == self.children@[i]);
                    }
                }
            }
        }
    }

    /// Whether `child_id` is in the routing table.
    pub fn has_child(&self, child_id: u128) -> (b: bool)
        ensures
            b == self.spec_shape().children.contains(child_id),
    {
        let mut i: usize = 0;
        while i < self.children.len()
            invariant
                i <= self.children@.len(),
                forall|j: int| 0 <= j < i ==> self.children@[j] != child_id,
            decreases self.children.len() - i,
        {
            if self.children[i] == child_id {
                proof { assert(self.children@[i as int] == child_id); }
                return true;
            }
            i = i + 1;
        }
        false
    }

    /// Removes `child_id` from the routing table; returns whether it was there.
    pub fn detach_child(&mut self, child_id: &u128) -> (b: bool)
        requires
            old(self).wf(),
        ensures
            final(self).wf(),
            b == old(self).spec_shape().children.contains(*child_id),
            !final(self).spec_shape().children.contains(*child_id),
            forall|c: u128| c != *child_id ==> (final(self).spec_shape().children.contains(c)
                <==> old(self).spec_shape().children.contains(c)),
            final(self).spec_shape() == (KnotShape { children: final(self).spec_shape().children, ..old(self).spec_shape() }),
            final(self).spec_kind() == old(self).spec_kind(),
            final(self).spec_object_state() == old(self).spec_object_state(),
            final(self).spec_linked() == old(self).spec_linked(),
            final(self).spec_class_id() == old(self).spec_class_id(),
            final(self).spec_volatile() == old(self).spec_volatile(),
    {
        match self.child_position(*child_id) {
            Some(i) => {
                let ghost before = self.children@;
                self.children.remove(i);
                proof {
                    assert forall|c: u128| #![auto] c != *child_id implies (self.children@.contains(c) <==> before.contains(c)) by {
                        if before.contains(c) {
                            let j = choose|j: int| 0 <= j < before.len() && before[j] == c;
                            if j < i { assert(self.children@[j] == c); } else { assert(j != i); assert(self.children@[j - 1] == c); }
                        }
                        if self.children@.contains(c) {
                            let j = choose|j: int| 0 <= j < self.children@.len() && self.children@[j] == c;
                            if j < i { assert(before[j] == c); } else { assert(before[j + 1] == c); }
                        }
                    }
                    assert forall|j: int| 0 <= j < self.children@.len() implies self.children@[j] != *child_id by {
                        if j < i { assert(self.children@[j] == before[j]); } else {
                            assert(self.children@[j] == before[j + 1]);
                            assert(before[i as int] != before[j + 1]);
                        }
                    }
                    assert forall|a: int, b: int| 0 <= a < b < self.children@.len() implies self.children@[a] != self.children@[b] by {
                        let sa = if a < i { a } else { a + 1 };
                        let sb = if b < i { b } else { b + 1 };
                        assert(self.children@[a] == before[sa]);
                        assert(self.children@[b] == before[sb]);
                    }
                    assert(before[i as int] == *child_id);
                }
                true
            },
            None => false,
        }
    }

    /// Position of `child_id` in the routing table.
    fn child_position(&self, child_id: u128) -> (r: Option<usize>)
        ensures
            r matches Some(i) ==> i < self.children@.len() && self.children@[i as int] == child_id,
            r is None ==> !self.children@.contains(child_id),
    {
        let mut i: usize = 0;
        while i < self.children.len()
            invariant
                i <= self.children@.len(),
                forall|j: int| 0 <= j < i ==> self.children@[j] != child_id,
            decreases self.children.len() - i,
        {
            if self.children[i] == child_id {
                return Some(i);
            }
            i = i + 1;
        }
        None
    }

    /// The global identity.
    pub fn id(&self) -> (r: u128)
        ensures
            r == self.spec_shape().id,
    {
        self.id
    }

    /// The local identity.
    pub fn local_id(&self) -> (r: LocalId)
        ensures
            r == self.spec_shape().local_id,
    {
        self.local_id
    }

    /// The metadata.
    pub fn meta(&self) -> (r: &CellMeta)
        ensures
            *r == self.spec_shape().meta,
    {
        &self.meta
    }

    /// The metadata, for in-place updates; nothing else changes.
    pub fn meta_mut(&mut self) -> (r: &mut CellMeta)
        ensures
            *r == old(self).spec_shape().meta,
            final(self).spec_shape() == (KnotShape { meta: *final(r), ..old(self).spec_shape() }),
            final(self).wf() == old(self).wf(),
            final(self).spec_kind() == old(self).spec_kind(),
            final(self).spec_object_state() == old(self).spec_object_state(),
            final(self).spec_linked() == old(self).spec_linked(),
            final(self).spec_class_id() == old(self).spec_class_id(),
            final(self).spec_volatile() == old(self).spec_volatile(),
    {
        &mut self.meta
    }

    /// The role.
    pub fn role(&self) -> (r: &KnotRole)
        ensures
            *r == self.spec_shape().role,
    {
        &self.role
    }

    /// The depth in the topology (0 is the root).
    pub fn level(&self) -> (r: u32)
        ensures
            r == self.spec_shape().level,
    {
        self.level
    }

    /// The parent's identity, `None` for the root.
    pub fn parent_id(&self) -> (r: Option<u128>)
        ensures
            r == self.spec_shape().parent_id,
    {
        self.parent_id
    }

    /// Whether packets can be escalated to a parent.
    pub fn has_parent_inbox(&self) -> (r: bool)
        ensures
            r == self.spec_shape().has_parent_inbox,
    {
        self.has_parent_inbox
    }

    /// The identities in the routing table, in attachment order.
    pub fn child_ids(&self) -> (r: Vec<u128>)
        ensures
            r@ == self.spec_shape().children,
    {
        clone_ids(&self.children)
    }

    /// The name of the role-specific state: `Hub`, `Class`, `Object` or `Action`.
    pub fn variant_name(&self) -> (s: &'static str)
        ensures
            s@ == self.spec_kind().spec_name(),
    {
        match &self.variant {
            KnotVariant::Hub => "Hub",
            KnotVariant::Class { .. } => "Class",
            KnotVariant::Object { .. } => "Object",
            KnotVariant::Action { .. } => "Action",
        }
    }

    /// The class of an Object Knot, a Class Knot's own class, else `None`.
    pub fn class_id(&self) -> (r: Option<u128>)
        ensures
            r == self.spec_class_id(),
    {
        match &self.variant {
            KnotVariant::Object { class_id, .. } => *class_id,
            KnotVariant::Class { definition } => Some(definition.id),
            _ => None,
        }
    }

    /// The property map of an Object Knot, `None` for other roles.
    pub fn shared_state(&self) -> (r: Option<&PropertyMap>)
        ensures
            r matches Some(m) ==> self.spec_object_state() == Some(*m),
            r is None <==> self.spec_object_state() is None,
    {
        match &self.variant {
            KnotVariant::Object { shared_state, .. } => Some(shared_state),
            _ => None,
        }
    }

    /// A copy of property `name` of an Object Knot; `None` for other roles
    /// and absent properties.
    pub fn get_property(&self, name: &str) -> (r: Option<JsonValue>)
        ensures
            r matches Some(v) ==> (self.spec_object_state() matches Some(m) && m@.contains_key(name@) && m@[name@] == v),
            r is None <==> !(self.spec_object_state() matches Some(m) && m@.contains_key(name@)),
    {
        match &self.variant {
            KnotVariant::Object { shared_state, .. } => {
                let key = name.to_owned();
                match shared_state.get(&key) {
                    Some(v) => Some(clone_value(v)),
                    None => None,
                }
            },
            _ => None,
        }
    }

    /// Links an Object Knot to an Action Knot (once); no effect on other roles.
    pub fn link_object(&mut self, object_id: u128)
        requires
            old(self).wf(),
        ensures
            final(self).wf(),
            final(self).spec_shape() == old(self).spec_shape(),
            final(self).spec_kind() == old(self).spec_kind(),
            final(self).spec_object_state() == old(self).spec_object_state(),
            final(self).spec_class_id() == old(self).spec_class_id(),
            final(self).spec_definition() == old(self).spec_definition(),
            forall|n: Seq<char>| #[trigger] final(self).spec_engine_names(n) == old(self).spec_engine_names(n),
            forall|ctx: ActionContext, o: ActionOutput| #[trigger] final(self).spec_engine_produces(ctx, o)
                == old(self).spec_engine_produces(ctx, o),
            final(self).spec_volatile() == old(self).spec_volatile(),
            old(self).spec_linked() matches Some(l) ==> final(self).spec_linked()
                == Some(if l.contains(object_id) { l } else { l.push(object_id) }),
            old(self).spec_linked() is None ==> final(self).spec_linked() is None,
    {
        match &mut self.variant {
            KnotVariant::Action { linked_object_ids, .. } => {
                let mut found = false;
                let mut i: usize = 0;
                while i < linked_object_ids.len()
                    invariant
                        i <= linked_object_ids@.len(),
                        found == (exists|j: int| 0 <= j < i && linked_object_ids@[j] == object_id),
                    decreases linked_object_ids.len() - i,
                {
                    if linked_object_ids[i] == object_id {
                        found = true;
                    }
                    i = i + 1;
                }
                if !found {
                    linked_object_ids.push(object_id);
                }
            },
            _ => {},
        }
    }

    /// The identities linked to an Action Knot; `None` for other roles.
    pub fn linked_object_ids(&self) -> (r: Option<Vec<u128>>)
        ensures
            r matches Some(v) ==> self.spec_linked() == Some(v@),
            r is None <==> self.spec_linked() is None,
    {
        match &self.variant {
            KnotVariant::Action { linked_object_ids, .. } => Some(clone_ids(linked_object_ids)),
            _ => None,
        }
    }

    /// The registry entry describing this Knot.
    pub fn registry_entry(&self) -> (e: RegistryEntry)
        ensures
            e@ == (EntryView {
                id: self.spec_shape().id,
                local_id: self.spec_shape().local_id,
                meta: self.spec_shape().meta,
                role: self.spec_shape().role,
                level: self.spec_shape().level,
                parent_id: self.spec_shape().parent_id,
                class_id: self.spec_class_id(),
                child_ids: self.spec_shape().children,
            }),
    {
        RegistryEntry {
            id: self.id,
            local_id: self.local_id,
            meta: self.meta.clone(),
            role: self.role,
            level: self.level,
            parent_id: self.parent_id,
            class_id: self.class_id(),
            child_ids: clone_ids(&self.children),
        }
    }

    /// Reads a volatile value.
    pub fn get(&self, key: &StateKey) -> (r: Option<&JsonValue>)
        ensures
            r matches Some(v) ==> self.spec_volatile().contains_key(key@) && self.spec_volatile()[key@] == *v,
            r is None <==> !self.spec_volatile().contains_key(key@),
    {
        self.volatile.get(key)
    }

    /// Writes a volatile value; nothing else changes.
    pub fn set(&mut self, key: StateKey, value: JsonValue)
        ensures
            final(self).spec_volatile() == old(self).spec_volatile().insert(key@, value),
            final(self).spec_shape() == old(self).spec_shape(),
            final(self).wf() == old(self).wf(),
            final(self).spec_kind() == old(self).spec_kind(),
            final(self).spec_object_state() == old(self).spec_object_state(),
            final(self).spec_linked() == old(self).spec_linked(),
            final(self).spec_class_id() == old(self).spec_class_id(),
    {
        self.volatile.set(key, value);
    }
}

/// Action Knot `k` ran its engine on `packet`: the engine was given the
/// context of the Knot's own identity, the packet and the snapshots of its
/// linked objects (as `snapshots_ok` describes), returned `o`, and is named
/// `name`.
pub open spec fn action_ran(
    k: Knot,
    packet: Packet,
    registry: Option<&KnotRegistry>,
    objects: AssocMap<u128, ObjectSnapshot>,
    o: ActionOutput,
    name: String,
) -> bool {
    &&& snapshots_ok(objects@, k.spec_linked()->0, registry)
    &&& k.spec_engine_produces(ActionContext { self_id: k.spec_shape().id, incoming: packet, objects }, o)
    &&& k.spec_engine_names(name@)
}

/// Whether a Knot works attached to a registry, whose state it mirrors.
pub open spec fn attached(registry: Option<&KnotRegistry>) -> bool {
    registry is Some
}

/// What a Knot does with a packet delivered to it, given the state
/// `before`, the state `after` and the effects after `PacketReceived`.
pub open spec fn local_outcome(
    before: Knot,
    after: Knot,
    packet: Packet,
    registry: Option<&KnotRegistry>,
    rest: Seq<KnotEffect>,
) -> bool {
    let id = before.spec_shape().id;
    let sync = attached(registry);
    match before.spec_kind() {
        KnotRole::Hub => rest.len() == 0 && after.spec_object_state() == before.spec_object_state(),
        KnotRole::Class => {
            &&& rest.len() == 1
            &&& crate::object::is_self_reply(rest[0], id, packet)
            &&& is_class_schema(pushed(rest[0]).payload, before.spec_definition()->0)
            &&& after.spec_object_state() == before.spec_object_state()
        },
        KnotRole::Object => {
            &&& after.spec_object_state() is Some
            &&& object_outcome(before.spec_object_state()->0, after.spec_object_state()->0@, id, packet, sync, rest)
        },
        KnotRole::Action => {
            &&& after.spec_object_state() == before.spec_object_state()
            &&& exists|objects: AssocMap<u128, ObjectSnapshot>, o: ActionOutput, name: String|
                #[trigger] action_ran(before, packet, registry, objects, o, name)
                && rest == action_effects(id, name, o, sync)
        },
    }
}

/// What a Knot does with `packet` when `elapsed` nanoseconds have passed
/// since its creation: the routing decision and its effects.
pub open spec fn packet_outcome(
    before: Knot,
    after: Knot,
    packet: Packet,
    elapsed: u128,
    registry: Option<&KnotRegistry>,
    effects: Seq<KnotEffect>,
) -> bool {
    &&& after.wf()
    &&& after.spec_shape() == before.spec_shape()
    &&& after.spec_kind() == before.spec_kind()
    &&& after.spec_linked() == before.spec_linked()
    &&& after.spec_class_id() == before.spec_class_id()
    &&& after.spec_definition() == before.spec_definition()
    &&& forall|n: Seq<char>| #[trigger] after.spec_engine_names(n) == before.spec_engine_names(n)
    &&& forall|ctx: ActionContext, o: ActionOutput| #[trigger] after.spec_engine_produces(ctx, o)
        == before.spec_engine_produces(ctx, o)
    &&& after.spec_volatile() == before.spec_volatile()
    &&& before.spec_route(packet, elapsed) != Route::Local ==> after.spec_object_state() == before.spec_object_state()
    &&& match before.spec_route(packet, elapsed) {
        Route::Expired => effects == seq![KnotEffect::Emit(KnotEvent::DeadLetter { packet, reason: DeadLetterReason::TtlExpired })],
        Route::Down => effects == seq![
            KnotEffect::Emit(KnotEvent::PacketForwardedDown { target_id: packet.target_id, packet }),
            KnotEffect::PushChild { child_id: packet.target_id, packet },
        ],
        Route::Up => effects == seq![
            KnotEffect::Emit(KnotEvent::PacketForwardedUp { packet }),
            KnotEffect::PushParent { packet },
        ],
        Route::Unroutable => effects == seq![KnotEffect::Emit(KnotEvent::DeadLetter { packet, reason: DeadLetterReason::NoRoute })],
        Route::Local => {
            &&& effects.len() >= 1
            &&& effects[0] == KnotEffect::Emit(KnotEvent::PacketReceived { packet })
            &&& local_outcome(before, after, packet, registry, effects.drop_first())
        },
    }
}

/// The `class_schema` reply payload for `c`.
pub fn class_schema_payload(c: &ClassDefinition) -> (v: JsonValue)
    ensures
        is_class_schema(v, *c),
{
    proof {
        reveal_strlit("op");
        reveal_strlit("schema");
        assert("op"@.len() == 2 && "schema"@.len() == 6);
    }
    let f = field("schema", c.to_json(), JsonFields::Nil);
    let f = field("op", JsonValue::text("class_schema"), f);
    JsonValue::Object(f)
}

impl Knot {
    /// Where `packet` goes when `elapsed` nanoseconds have passed since its
    /// creation.
    pub fn route(&self, packet: &Packet, elapsed: u128) -> (r: Route)
        ensures
            r == self.spec_route(*packet, elapsed),
    {
        if packet.expired_after(elapsed) {
            Route::Expired
        } else if packet.target_id == self.id {
            Route::Local
        } else if self.has_child(packet.target_id) {
            Route::Down
        } else if self.has_parent_inbox {
            Route::Up
        } else {
            Route::Unroutable
        }
    }

    /// Executes a packet delivered to this Knot and returns the effects
    /// that follow `PacketReceived`.
    #[verifier::spinoff_prover]
    #[verifier::rlimit(30)]
    fn execute(&mut self, packet: &Packet, registry: Option<&KnotRegistry>) -> (rest: Vec<KnotEffect>)
        requires
            old(self).wf(),
        ensures
            final(self).wf(),
            final(self).spec_shape() == old(self).spec_shape(),
            final(self).spec_kind() == old(self).spec_kind(),
            final(self).spec_linked() == old(self).spec_linked(),
            final(self).spec_class_id() == old(self).spec_class_id(),
            final(self).spec_definition() == old(self).spec_definition(),
            forall|n: Seq<char>| #[trigger] final(self).spec_engine_names(n) == old(self).spec_engine_names(n),
            forall|ctx: ActionContext, o: ActionOutput| #[trigger] final(self).spec_engine_produces(ctx, o)
                == old(self).spec_engine_produces(ctx, o),
            final(self).spec_volatile() == old(self).spec_volatile(),
            local_outcome(*old(self), *final(self), *packet, registry, rest@),
    {
        let id = self.id;
        let sync = registry.is_some();
        let ghost before = *self;
        let ghost mut wit_output: ActionOutput = vstd::pervasive::arbitrary();
        let ghost mut wit_name: String = vstd::pervasive::arbitrary();
        let ghost mut wit_objects: AssocMap<u128, ObjectSnapshot> = vstd::pervasive::arbitrary();
        let ghost mut wit_after: Map<Seq<char>, JsonValue> = vstd::pervasive::arbitrary();
        let rest = match &mut self.variant {
            KnotVariant::Hub => Vec::new(),
            KnotVariant::Class { definition } => {
                let reply = Packet::new(id, packet.sender_id, packet.priority, REPLY_TTL_MS, class_schema_payload(definition));
                let mut rest = Vec::new();
                rest.push(KnotEffect::PushSelf { packet: reply });
                rest
            },
            KnotVariant::Object { shared_state, .. } => {
                let effects = object_effects(shared_state, id, packet, sync);
                proof {
                    wit_after = shared_state@;
                }
                effects
            },
            KnotVariant::Action { engine, linked_object_ids } => {
                let objects = gather_snapshots(linked_object_ids, registry);
                proof { wit_objects = objects; }
                let ctx = ActionContext { self_id: id, incoming: packet.clone(), objects };
                let output = engine.execute(&ctx);
                let name = engine.name().to_owned();
                proof {
                    wit_output = output;
                    wit_name = name;
                    assert(ctx == ActionContext { self_id: id, incoming: *packet, objects: wit_objects });
                }
                apply_action_output(id, name, output, sync)
            },
        };
        proof {
            if before.spec_kind() == KnotRole::Action {
                assert(rest@ == action_effects(id, wit_name, wit_output, sync));
                assert(self.spec_object_state() == before.spec_object_state());
                assert(sync == attached(registry));
                assert(id == before.spec_shape().id);
                assert(rest@ == action_effects(before.spec_shape().id, wit_name, wit_output, attached(registry)));
                assert(action_ran(before, *packet, registry, wit_objects, wit_output, wit_name));
                assert(local_outcome(before, *self, *packet, registry, rest@));
            } else if before.spec_kind() == KnotRole::Hub {
                assert(local_outcome(before, *self, *packet, registry, rest@));
            } else if before.spec_kind() == KnotRole::Class {
                assert(local_outcome(before, *self, *packet, registry, rest@));
            } else {
                assert(self.spec_object_state()->0@ == wit_after);
                assert(self.spec_object_state() is Some);
                assert(sync == attached(registry));
                assert(id == before.spec_shape().id);
                assert(before.spec_kind() == KnotRole::Object);
                assert(object_outcome(before.spec_object_state()->0, wit_after, id, *packet, sync, rest@));
                assert(local_outcome(before, *self, *packet, registry, rest@));
            }
        }
        rest
    }

    /// Routes `packet` by the rules taken in order, when `elapsed`
    /// nanoseconds have passed since its creation: an expired packet is
    /// dead-lettered; a packet for this Knot is executed here; a packet for
    /// a known child goes down; any other goes up when there is a parent and
    /// is dead-lettered when there is none.
    pub fn handle_packet_at(&mut self, packet: Packet, elapsed: u128, registry: Option<&KnotRegistry>) -> (effects: Vec<KnotEffect>)
        requires
            old(self).wf(),
        ensures
            packet_outcome(*old(self), *final(self), packet, elapsed, registry, effects@),
    {
        let mut effects: Vec<KnotEffect> = Vec::new();
        match self.route(&packet, elapsed) {
            Route::Expired => {
                effects.push(KnotEffect::Emit(KnotEvent::DeadLetter { packet, reason: DeadLetterReason::TtlExpired }));
            },
            Route::Local => {
                effects.push(KnotEffect::Emit(KnotEvent::PacketReceived { packet: packet.clone() }));
                let rest = self.execute(&packet, registry);
                let ghost r = rest@;
                let mut rest = rest;
                effects.append(&mut rest);
                proof {
                    assert(effects@.drop_first() =~= r);
                }
            },
            Route::Down => {
                let target = packet.target_id;
                let copy = packet.clone();
                effects.push(KnotEffect::Emit(KnotEvent::PacketForwardedDown { target_id: target, packet: copy }));
                effects.push(KnotEffect::PushChild { child_id: target, packet });
                proof {
                    assert(effects@ =~= seq![
                        KnotEffect::Emit(KnotEvent::PacketForwardedDown { target_id: target, packet: copy }),
                        KnotEffect::PushChild { child_id: target, packet: copy },
                    ]);
                }
            },
            Route::Up => {
                let copy = packet.clone();
                effects.push(KnotEffect::Emit(KnotEvent::PacketForwardedUp { packet: copy }));
                effects.push(KnotEffect::PushParent { packet });
                proof {
                    assert(effects@ =~= seq![
                        KnotEffect::Emit(KnotEvent::PacketForwardedUp { packet: copy }),
                        KnotEffect::PushParent { packet: copy },
                    ]);
                }
            },
            Route::Unroutable => {
                effects.push(KnotEffect::Emit(KnotEvent::DeadLetter { packet, reason: DeadLetterReason::NoRoute }));
            },
        }
        effects
    }

    /// Routes `packet` now: reads the time elapsed since its creation and
    /// routes it as `handle_packet_at` does for that reading.
    pub fn handle_packet(&mut self, packet: Packet, registry: Option<&KnotRegistry>) -> (effects: Vec<KnotEffect>)
        requires
            old(self).wf(),
        ensures
            exists|elapsed: u128| packet_outcome(*old(self), *final(self), packet, elapsed, registry, effects@),
    {
        let elapsed = packet.age_nanos();
        self.handle_packet_at(packet, elapsed, registry)
    }
}

/// The tracked states after a property write to `knot_id`.
pub open spec fn state_written(
    states: Map<u128, Map<Seq<char>, JsonValue>>,
    knot_id: u128,
    property: Seq<char>,
    value: JsonValue,
) -> Map<u128, Map<Seq<char>, JsonValue>> {
    states.insert(
        knot_id,
        (if states.contains_key(knot_id) {
            states[knot_id]
        } else {
            Map::<Seq<char>, JsonValue>::empty()
        }).insert(property, value),
    )
}

/// The tracked states after the `SyncState` effects of `effects` are
/// applied in order; other effects change nothing.
pub open spec fn synced_states(
    states: Map<u128, Map<Seq<char>, JsonValue>>,
    effects: Seq<KnotEffect>,
) -> Map<u128, Map<Seq<char>, JsonValue>>
    decreases effects.len(),
{
    if effects.len() == 0 {
        states
    } else {
        let prev = synced_states(states, effects.drop_last());
        match effects.last() {
            KnotEffect::SyncState { knot_id, property, value } => state_written(prev, knot_id, property@, value),
            _ => prev,
        }
    }
}

/// Mirrors the property writes among `effects` into the registry, in order.
pub fn apply_sync_effects(registry: &mut KnotRegistry, effects: &Vec<KnotEffect>)
    ensures
        final(registry).spec_entries() == old(registry).spec_entries(),
        final(registry).spec_states() == synced_states(old(registry).spec_states(), effects@),
{
    let mut i: usize = 0;
    while i < effects.len()
        invariant
            i <= effects@.len(),
            registry.spec_entries() == old(registry).spec_entries(),
            registry.spec_states() == synced_states(old(registry).spec_states(), effects@.take(i as int)),
        decreases effects.len() - i,
    {
        proof {
            assert(effects@.take(i + 1).drop_last() =~= effects@.take(i as int));
            assert(effects@.take(i + 1).last() == effects@[i as int]);
        }
        match &effects[i] {
            KnotEffect::SyncState { knot_id, property, value } => {
                registry.set_state(*knot_id, property.clone(), clone_value(value));
            },
            _ => {},
        }
        i = i + 1;
    }
    proof { assert(effects@.take(effects@.len() as int) =~= effects@); }
}

impl Knot {
    /// The event a run loop publishes when it starts.
    pub fn started_event(&self) -> (e: KnotEvent)
        ensures
            e == (KnotEvent::Started { knot_id: self.spec_shape().id }),
    {
        KnotEvent::Started { knot_id: self.id }
    }

    /// The event a run loop publishes when it stops.
    pub fn stopped_event(&self) -> (e: KnotEvent)
        ensures
            e == (KnotEvent::Stopped { knot_id: self.spec_shape().id }),
    {
        KnotEvent::Stopped { knot_id: self.id }
    }

    /// Registers this Knot at the start of its run: its registry entry is
    /// inserted or replaced.
    pub fn register_in(&self, registry: &mut KnotRegistry)
        ensures
            final(registry).spec_states() == old(registry).spec_states(),
            final(registry).spec_entries() == old(registry).spec_entries().insert(
                self.spec_shape().id,
                EntryView {
                    id: self.spec_shape().id,
                    local_id: self.spec_shape().local_id,
                    meta: self.spec_shape().meta,
                    role: self.spec_shape().role,
                    level: self.spec_shape().level,
                    parent_id: self.spec_shape().parent_id,
                    class_id: self.spec_class_id(),
                    child_ids: self.spec_shape().children,
                },
            ),
    {
        registry.upsert(self.registry_entry());
    }

    /// Deregisters this Knot when its run ends: its entry and tracked state
    /// are removed.
    pub fn deregister_from(&self, registry: &mut KnotRegistry)
        ensures
            final(registry).spec_entries() == old(registry).spec_entries().remove(self.spec_shape().id),
            final(registry).spec_states() == old(registry).spec_states().remove(self.spec_shape().id),
    {
        registry.remove(&self.id);
    }
}

/// After a child is attached, an unexpired packet addressed to it (and not
/// to the Knot itself) is forwarded down.
pub proof fn law_attached_child_routes_down(before: Knot, after: Knot, child: u128, packet: Packet, elapsed: u128)
    requires
        after.spec_shape() == (KnotShape {
            children: if before.spec_shape().children.contains(child) {
                before.spec_shape().children
            } else {
                before.spec_shape().children.push(child)
            },
            ..before.spec_shape()
        }),
        packet.target_id == child,
        child != before.spec_shape().id,
        !packet.spec_expired_after(elapsed),
    ensures
        after.spec_route(packet, elapsed) == Route::Down,
{
    if !before.spec_shape().children.contains(child) {
        assert(before.spec_shape().children.push(child)[before.spec_shape().children.len() as int] == child);
    }
}

/// After a child is detached, an unexpired packet addressed to it (and not
/// to the Knot itself) is escalated to the parent when there is one and
/// dead-lettered otherwise.
pub proof fn law_detached_child_not_routed_down(after: Knot, child: u128, packet: Packet, elapsed: u128)
    requires
        !after.spec_shape().children.contains(child),
        packet.target_id == child,
        child != after.spec_shape().id,
        !packet.spec_expired_after(elapsed),
    ensures
        after.spec_route(packet, elapsed) == (if after.spec_shape().has_parent_inbox { Route::Up } else { Route::Unroutable }),
{
}

/// An expired packet is dead-lettered whatever its target, and a packet for
/// the Knot itself is delivered locally before any child or parent is
/// considered.
pub proof fn law_route_precedence(k: Knot, packet: Packet, elapsed: u128)
    ensures
        packet.spec_expired_after(elapsed) ==> k.spec_route(packet, elapsed) == Route::Expired,
        !packet.spec_expired_after(elapsed) && packet.target_id == k.spec_shape().id
            ==> k.spec_route(packet, elapsed) == Route::Local,
{
}

/// Every routing decision is reported: the first effect of handling a
/// packet publishes the event that names the decision.
pub proof fn law_every_packet_reported(
    before: Knot,
    after: Knot,
    packet: Packet,
    elapsed: u128,
    registry: Option<&KnotRegistry>,
    effects: Seq<KnotEffect>,
)
    requires
        packet_outcome(before, after, packet, elapsed, registry, effects),
    ensures
        effects.len() >= 1,
        effects[0] == KnotEffect::Emit(match before.spec_route(packet, elapsed) {
            Route::Expired => KnotEvent::DeadLetter { packet, reason: DeadLetterReason::TtlExpired },
            Route::Local => KnotEvent::PacketReceived { packet },
            Route::Down => KnotEvent::PacketForwardedDown { target_id: packet.target_id, packet },
            Route::Up => KnotEvent::PacketForwardedUp { packet },
            Route::Unroutable => KnotEvent::DeadLetter { packet, reason: DeadLetterReason::NoRoute },
        }),
{
}

/// A property written through a `set` packet by an Object Knot attached to
/// a registry reaches the registry: once the handling's effects are
/// mirrored, the Knot's tracked state holds the written value.
pub proof fn law_set_is_mirrored(
    before: Knot,
    after: Knot,
    packet: Packet,
    elapsed: u128,
    registry: &KnotRegistry,
    effects: Seq<KnotEffect>,
    states: Map<u128, Map<Seq<char>, JsonValue>>,
    name: Seq<char>,
    value: JsonValue,
)
    requires
        packet_outcome(before, after, packet, elapsed, Some(registry), effects),
        before.spec_route(packet, elapsed) == Route::Local,
        before.spec_kind() == KnotRole::Object,
        packet.payload.spec_text_field("op"@) == Some("set"@),
        packet.payload.spec_text_field("property"@) == Some(name),
        packet.payload.spec_field("value"@) == Some(value),
    ensures
        synced_states(states, effects).contains_key(before.spec_shape().id),
        synced_states(states, effects)[before.spec_shape().id].contains_key(name),
        synced_states(states, effects)[before.spec_shape().id][name] == value,
{
    reveal_strlit("set");
    reveal_strlit("get");
    assert("set"@[0] != "get"@[0]);
    let id = before.spec_shape().id;
    let rest = effects.drop_first();
    assert(rest.len() == 3);
    assert(rest.take(2)[0] == rest[0]);
    assert(rest.take(2)[1] == rest[1]);
    assert(effects[1] == rest[0] && effects[2] == rest[1] && effects[3] == rest[2]);
    let e3 = effects.take(3);
    let e2 = effects.take(2);
    let e1 = effects.take(1);
    assert(effects.drop_last() =~= e3);
    assert(e3.drop_last() =~= e2);
    assert(e2.drop_last() =~= e1);
    assert(e1.drop_last() =~= Seq::<KnotEffect>::empty());
    assert(synced_states(states, e1.drop_last()) == states);
    assert(e1.last() == effects[0]);
    assert(synced_states(states, e1) == states);
    assert(e2.last() == effects[1]);
    assert(synced_states(states, e2) == state_written(states, id, name, value));
    assert(synced_states(states, e3) == synced_states(states, e2));
    assert(synced_states(states, effects) == synced_states(states, e3));
}

impl Knot {
    /// A one-line description:
    /// `Knot { id: <uuid>, role: <role>, level: <n>, name: <name as Debug> }`.
    pub fn describe(&self) -> (s: String)
        ensures
            s@ == "Knot { id: "@ + uuid_text(self.spec_shape().id) + ", role: "@ + self.spec_shape().role.spec_name()
                + ", level: "@ + decimal(self.spec_shape().level as nat) + ", name: "@
                + debug_text(self.spec_shape().meta.name@) + " }"@,
    {
        let mut out: Vec<char> = Vec::new();
        push_str(&mut out, "Knot { id: ");
        push_str(&mut out, id_to_string(self.id).as_str());
        push_str(&mut out, ", role: ");
        push_str(&mut out, self.role.name().as_str());
        push_str(&mut out, ", level: ");
        push_decimal(&mut out, self.level as u64);
        push_str(&mut out, ", name: ");
        push_str(&mut out, debug_string(self.meta.name.as_str()).as_str());
        push_str(&mut out, " }");
        proof {
            assert(out@ =~= "Knot { id: "@ + uuid_text(self.spec_shape().id) + ", role: "@ + self.spec_shape().role.spec_name()
                + ", level: "@ + decimal(self.spec_shape().level as nat) + ", name: "@
                + debug_text(self.spec_shape().meta.name@) + " }"@);
        }
        string_of(&out)
    }
}

} // verus!
