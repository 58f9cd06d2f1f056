//! The decisions behind the HTTP and WebSocket API: what each request is
//! checked against, in which order, what it changes in the registry and what
//! is answered.
//!
//! The transport (routing, JSON text, the socket loop) lives outside the
//! library; it hands the requests over as the types of this module and
//! performs the store writes between a plan and its commit.

use vstd::prelude::*;
use vstd::string::*;
use crate::cell::{CellMeta, clone_opt_string};
use crate::ids::{NIL_ID, parse_id, parsed_uuid, uuid_text, id_to_string};
use crate::json::{JsonValue, JsonFields, field};
use crate::knot::KnotRole;
use crate::packet::Packet;
use crate::persistence::KnotRow;
use crate::registry::{KnotRegistry, RegistryEntry, EntryView, without_child};
use crate::state::PropertyMap;

verus! {

/// Priority of an injected packet that names none (mid-range).
pub const DEFAULT_PRIORITY: u8 = 128u8;

/// Time-to-live of an injected packet that names none, in milliseconds.
pub const DEFAULT_TTL_MS: u64 = 5000u64;

/// JSON-RPC: the frame is not valid JSON or not a request.
pub const PARSE_ERROR: i32 = -32700i32;

/// JSON-RPC: the method does not exist.
pub const METHOD_NOT_FOUND: i32 = -32601i32;

/// JSON-RPC: the parameters are missing or malformed.
pub const INVALID_PARAMS: i32 = -32602i32;

/// JSON-RPC: the server failed while answering.
pub const INTERNAL_ERROR: i32 = -32603i32;

/// Why a request is refused: the HTTP status class and the message sent
/// back under `error`.
#[derive(Debug)]
pub enum ApiError {
    /// 400: the request itself is malformed.
    BadRequest(String),
    /// 404: a Knot the request names does not exist.
    NotFound(String),
    /// 500: the store failed.
    Internal(String),
}

impl ApiError {
    /// The HTTP status code.
    pub open spec fn spec_status(self) -> u16 {
        match self {
            ApiError::BadRequest(_) => 400,
            ApiError::NotFound(_) => 404,
            ApiError::Internal(_) => 500,
        }
    }

    /// The message.
    pub open spec fn spec_message(self) -> Seq<char> {
        match self {
            ApiError::BadRequest(m) => m@,
            ApiError::NotFound(m) => m@,
            ApiError::Internal(m) => m@,
        }
    }

    /// The HTTP status code: 400, 404 or 500.
    pub fn status(&self) -> (s: u16)
        ensures
            s == self.spec_status(),
    {
        match self {
            ApiError::BadRequest(_) => 400,
            ApiError::NotFound(_) => 404,
            ApiError::Internal(_) => 500,
        }
    }

    /// The response body: an object whose one field `error` holds the message.
    pub fn body(&self) -> (v: JsonValue)
        ensures
            v.spec_object_len() == Some(1nat),
            v.spec_text_field("error"@) == Some(self.spec_message()),
    {
        let m = match self {
            ApiError::BadRequest(m) => m.clone(),
            ApiError::NotFound(m) => m.clone(),
            ApiError::Internal(m) => m.clone(),
        };
        proof { reveal_strlit("error"); }
        JsonValue::Object(field("error", JsonValue::Text(m), JsonFields::Nil))
    }
}

/// A packet to inject into the root inbox; absent fields take defaults.
#[derive(Debug)]
pub struct InjectPacketRequest {
    /// Destination Knot.
    pub target_id: u128,
    /// Originating sender; the nil identity when absent.
    pub sender_id: Option<u128>,
    /// Priority; 128 when absent.
    pub priority: Option<u8>,
    /// Time-to-live in milliseconds; 5000 when absent.
    pub ttl_ms: Option<u64>,
    /// The payload; an empty object when absent.
    pub payload: Option<JsonValue>,
}

impl InjectPacketRequest {
    /// The packet the request describes, stamped now: the sender defaults to
    /// nil, the priority to 128, the TTL to 5000 ms and the payload to `{}`.
    pub fn into_packet(self) -> (p: Packet)
        ensures
            p.target_id == self.target_id,
            p.sender_id == (match self.sender_id { Some(s) => s, None => NIL_ID }),
            p.priority == (match self.priority { Some(x) => x, None => DEFAULT_PRIORITY }),
            p.ttl_ms == (match self.ttl_ms { Some(t) => t, None => DEFAULT_TTL_MS }),
            p.payload == (match self.payload { Some(v) => v, None => JsonValue::Object(JsonFields::Nil) }),
    {
        let sender = match self.sender_id {
            Some(s) => s,
            None => NIL_ID,
        };
        let priority = match self.priority {
            Some(x) => x,
            None => DEFAULT_PRIORITY,
        };
        let ttl = match self.ttl_ms {
            Some(t) => t,
            None => DEFAULT_TTL_MS,
        };
        let payload = match self.payload {
            Some(v) => v,
            None => JsonValue::Object(JsonFields::Nil),
        };
        Packet::new(sender, self.target_id, priority, ttl, payload)
    }
}

/// The answer to an accepted injection: `{"status": "queued"}`.
pub fn queued_body() -> (v: JsonValue)
    ensures
        v.spec_object_len() == Some(1nat),
        v.spec_text_field("status"@) == Some("queued"@),
{
    proof {
        reveal_strlit("status");
        reveal_strlit("queued");
    }
    JsonValue::Object(field("status", JsonValue::text("queued"), JsonFields::Nil))
}

/// Reads a Knot identity from a request path; text that is no UUID is a
/// bad request (`invalid UUID`).
pub fn parse_knot_id(text: &str) -> (r: Result<u128, ApiError>)
    ensures
        r matches Ok(id) ==> parsed_uuid(text@) == Some(id),
        r matches Err(e) ==> parsed_uuid(text@) is None && e is BadRequest && e.spec_message() == "invalid UUID"@,
        r is Ok <==> parsed_uuid(text@) is Some,
        forall|v: u128| text@ == #[trigger] uuid_text(v) ==> r == Ok::<u128, ApiError>(v),
{
    match parse_id(text) {
        Some(id) => Ok(id),
        None => {
            proof { reveal_strlit("invalid UUID"); }
            Err(ApiError::BadRequest("invalid UUID".to_owned()))
        },
    }
}

/// `GET /api/knot/:id`: the entry for the identity in `text`; a malformed
/// identity is a bad request, an unknown one is `knot not found`.
pub fn lookup_knot(registry: &KnotRegistry, text: &str) -> (r: Result<RegistryEntry, ApiError>)
    ensures
        parsed_uuid(text@) is None ==> (r matches Err(e) && e is BadRequest && e.spec_message() == "invalid UUID"@),
        parsed_uuid(text@) matches Some(id) ==> (match r {
            Ok(e) => registry.spec_entries().contains_key(id) && e@ == registry.spec_entries()[id],
            Err(e) => !registry.spec_entries().contains_key(id) && e is NotFound
                && e.spec_message() == "knot not found"@,
        }),
{
    let id = match parse_knot_id(text) {
        Ok(id) => id,
        Err(e) => return Err(e),
    };
    match registry.get(&id) {
        Some(e) => Ok(e),
        None => {
            proof { reveal_strlit("knot not found"); }
            Err(ApiError::NotFound("knot not found".to_owned()))
        },
    }
}

/// `GET /api/knot/:id/state`: the tracked property map for the identity in
/// `text`; a malformed identity is a bad request, one without tracked state
/// is `knot not found or has no state`.
pub fn lookup_knot_state(registry: &KnotRegistry, text: &str) -> (r: Result<PropertyMap, ApiError>)
    ensures
        parsed_uuid(text@) is None ==> (r matches Err(e) && e is BadRequest && e.spec_message() == "invalid UUID"@),
        parsed_uuid(text@) matches Some(id) ==> (match r {
            Ok(m) => registry.spec_states().contains_key(id) && m@ == registry.spec_states()[id],
            Err(e) => !registry.spec_states().contains_key(id) && e is NotFound
                && e.spec_message() == "knot not found or has no state"@,
        }),
{
    let id = match parse_knot_id(text) {
        Ok(id) => id,
        Err(e) => return Err(e),
    };
    match registry.get_state_snapshot(&id) {
        Some(m) => Ok(m),
        None => {
            proof { reveal_strlit("knot not found or has no state"); }
            Err(ApiError::NotFound("knot not found or has no state".to_owned()))
        },
    }
}

/// `POST /api/knot` body: a new Knot's name, description, role name and
/// parent.
#[derive(Debug)]
pub struct CreateKnotRequest {
    pub name: String,
    pub description: Option<String>,
    /// `Hub`, `Action`, `Object` or `Class`.
    pub role: String,
    pub parent_id: Option<u128>,
}

/// `PATCH /api/knot/:id` body: the metadata fields to change.
#[derive(Debug)]
pub struct UpdateKnotRequest {
    pub name: Option<String>,
    pub description: Option<String>,
}

/// `POST /api/link` body: `source` becomes the parent of `target`.
#[derive(Debug)]
pub struct CreateLinkRequest {
    pub source_id: u128,
    pub target_id: u128,
    /// Semantic label; `edge` when absent.
    pub link_type: Option<String>,
}

/// What an accepted `POST /api/knot` creates: the role and the depth.
#[derive(Debug)]
pub struct KnotPlan {
    pub role: KnotRole,
    pub level: u32,
}

/// The parent named by `parent_id`, if any, has a level that can grow by one.
pub open spec fn parent_level_fits(registry: &KnotRegistry, parent_id: Option<u128>) -> bool {
    match parent_id {
        Some(p) => registry.spec_entries().contains_key(p) ==> registry.spec_entries()[p].level < u32::MAX,
        None => true,
    }
}

/// Checks a `POST /api/knot` request, in order: the role must be one of the
/// four names (else a bad request `unknown role: <role>`), and a named
/// parent must exist (else `parent_id not found`). The new Knot sits one
/// level below its parent, or at level 0 without one.
pub fn plan_create_knot(req: &CreateKnotRequest, registry: &KnotRegistry) -> (r: Result<KnotPlan, ApiError>)
    requires
        KnotRole::spec_from_name(req.role@) is Some ==> parent_level_fits(registry, req.parent_id),
    ensures
        KnotRole::spec_from_name(req.role@) is None ==> (r matches Err(e) && e is BadRequest
            && e.spec_message() == "unknown role: "@ + req.role@),
        KnotRole::spec_from_name(req.role@) matches Some(role) ==> match req.parent_id {
            None => r matches Ok(p) && p.role == role && p.level == 0,
            Some(pid) => if registry.spec_entries().contains_key(pid) {
                r matches Ok(p) && p.role == role && p.level == registry.spec_entries()[pid].level + 1
            } else {
                r matches Err(e) && e is NotFound && e.spec_message() == "parent_id not found"@
            },
        },
{
    let role = match KnotRole::from_name(req.role.as_str()) {
        Some(role) => role,
        None => {
            proof { reveal_strlit("unknown role: "); }
            return Err(ApiError::BadRequest("unknown role: ".to_owned().concat(req.role.as_str())));
        },
    };
    match req.parent_id {
        None => Ok(KnotPlan { role, level: 0 }),
        Some(pid) => match registry.get(&pid) {
            Some(parent) => Ok(KnotPlan { role, level: parent.level + 1 }),
            None => {
                proof { reveal_strlit("parent_id not found"); }
                Err(ApiError::NotFound("parent_id not found".to_owned()))
            },
        },
    }
}

/// The registry entry of a Knot created by `req` under `plan`: the name and
/// description, the planned role and level, the parent, no class and no
/// children.
pub fn created_entry(id: u128, local_id: u64, req: &CreateKnotRequest, plan: &KnotPlan) -> (e: RegistryEntry)
    ensures
        e@ == (EntryView {
            id,
            local_id,
            meta: CellMeta { name: req.name, description: req.description },
            role: plan.role,
            level: plan.level,
            parent_id: req.parent_id,
            class_id: None,
            child_ids: Seq::empty(),
        }),
{
    let meta = CellMeta { name: req.name.clone(), description: clone_opt_string(&req.description) };
    let e = RegistryEntry {
        id,
        local_id,
        meta,
        role: plan.role,
        level: plan.level,
        parent_id: req.parent_id,
        class_id: None,
        child_ids: Vec::new(),
    };
    proof { assert(e@.child_ids =~= Seq::<u128>::empty()); }
    e
}

/// The workspace row recording a registry entry.
pub fn entry_row(e: &RegistryEntry) -> (row: KnotRow)
    ensures
        row.id == e.id,
        row.local_id == e.local_id,
        row.name == e.meta.name,
        row.description == e.meta.description,
        row.role@ == e.role.spec_name(),
        row.level == e.level,
        row.parent_id == e.parent_id,
        row.class_id == e.class_id,
{
    KnotRow {
        id: e.id,
        local_id: e.local_id,
        name: e.meta.name.clone(),
        description: clone_opt_string(&e.meta.description),
        role: e.role.name(),
        level: e.level,
        parent_id: e.parent_id,
        class_id: e.class_id,
    }
}

/// The entries after `child` is listed under `parent` (once; nothing
/// changes when `parent` is unknown).
pub open spec fn with_child(entries: Map<u128, EntryView>, parent: u128, child: u128) -> Map<u128, EntryView> {
    if entries.contains_key(parent) {
        entries.insert(parent, EntryView {
            child_ids: if entries[parent].child_ids.contains(child) {
                entries[parent].child_ids
            } else {
                entries[parent].child_ids.push(child)
            },
            ..entries[parent]
        })
    } else {
        entries
    }
}

/// Registers a created Knot: its entry is inserted (or replaced) and it is
/// listed among its parent's children.
pub fn register_created(registry: &mut KnotRegistry, entry: RegistryEntry)
    ensures
        final(registry).spec_states() == old(registry).spec_states(),
        final(registry).spec_entries() == match entry.parent_id {
            Some(p) => with_child(old(registry).spec_entries().insert(entry.id, entry@), p, entry.id),
            None => old(registry).spec_entries().insert(entry.id, entry@),
        },
{
    let id = entry.id;
    let parent = entry.parent_id;
    registry.upsert(entry);
    match parent {
        Some(p) => registry.add_child_id(&p, id),
        None => {},
    }
}

/// What an accepted `POST /api/link` makes: the link type and the child's
/// new level.
#[derive(Debug)]
pub struct LinkPlan {
    pub link_type: String,
    pub level: u32,
}

/// Checks a `POST /api/link` request, in order: the source must exist
/// (`source_id not found`), the target must exist (`target_id not found`),
/// and they must differ (a bad request `source and target must differ`).
/// The link type defaults to `edge`; the child moves one level below the
/// source.
pub fn plan_create_link(req: &CreateLinkRequest, registry: &KnotRegistry) -> (r: Result<LinkPlan, ApiError>)
    requires
        registry.spec_entries().contains_key(req.target_id) && req.source_id != req.target_id
            ==> parent_level_fits(registry, Some(req.source_id)),
    ensures
        !registry.spec_entries().contains_key(req.source_id) ==> (r matches Err(e) && e is NotFound
            && e.spec_message() == "source_id not found"@),
        registry.spec_entries().contains_key(req.source_id) && !registry.spec_entries().contains_key(req.target_id)
            ==> (r matches Err(e) && e is NotFound && e.spec_message() == "target_id not found"@),
        registry.spec_entries().contains_key(req.source_id) && registry.spec_entries().contains_key(req.target_id)
            && req.source_id == req.target_id
            ==> (r matches Err(e) && e is BadRequest && e.spec_message() == "source and target must differ"@),
        registry.spec_entries().contains_key(req.source_id) && registry.spec_entries().contains_key(req.target_id)
            && req.source_id != req.target_id ==> (r matches Ok(p)
                && p.level == registry.spec_entries()[req.source_id].level + 1
                && p.link_type@ == match req.link_type { Some(t) => t@, None => "edge"@ }),
{
    let source = match registry.get(&req.source_id) {
        Some(e) => e,
        None => {
            proof { reveal_strlit("source_id not found"); }
            return Err(ApiError::NotFound("source_id not found".to_owned()));
        },
    };
    if registry.get(&req.target_id).is_none() {
        proof { reveal_strlit("target_id not found"); }
        return Err(ApiError::NotFound("target_id not found".to_owned()));
    }
    if req.source_id == req.target_id {
        proof { reveal_strlit("source and target must differ"); }
        return Err(ApiError::BadRequest("source and target must differ".to_owned()));
    }
    let link_type = match &req.link_type {
        Some(t) => t.clone(),
        None => {
            proof { reveal_strlit("edge"); }
            "edge".to_owned()
        },
    };
    Ok(LinkPlan { link_type, level: source.level + 1 })
}

/// The workspace row of a child after it is linked under `source` at
/// `level`: the child's own fields with the new parent and level.
pub fn linked_child_row(child: &RegistryEntry, source: u128, level: u32) -> (row: KnotRow)
    ensures
        row.id == child.id,
        row.local_id == child.local_id,
        row.name == child.meta.name,
        row.description == child.meta.description,
        row.role@ == child.role.spec_name(),
        row.level == level,
        row.parent_id == Some(source),
        row.class_id == child.class_id,
{
    let row = entry_row(child);
    KnotRow { level, parent_id: Some(source), ..row }
}

/// Records a link in the registry: `target` gets `source` as its parent and
/// the new level, and is listed among `source`'s children.
pub fn commit_link(registry: &mut KnotRegistry, source: u128, target: u128, level: u32)
    ensures
        final(registry).spec_states() == old(registry).spec_states(),
        final(registry).spec_entries() == with_child(
            if old(registry).spec_entries().contains_key(target) {
                old(registry).spec_entries().insert(target, EntryView {
                    parent_id: Some(source),
                    level,
                    ..old(registry).spec_entries()[target]
                })
            } else {
                old(registry).spec_entries()
            },
            source,
            target,
        ),
{
    registry.set_parent(&target, source, level);
    registry.add_child_id(&source, target);
}

/// The answer to an accepted link: its identity, ends and type.
pub fn link_body(link_id: u128, source: u128, target: u128, link_type: &String) -> (v: JsonValue)
    ensures
        v.spec_object_len() == Some(4nat),
        v.spec_text_field("id"@) == Some(uuid_text(link_id)),
        v.spec_text_field("source_id"@) == Some(uuid_text(source)),
        v.spec_text_field("target_id"@) == Some(uuid_text(target)),
        v.spec_text_field("link_type"@) == Some(link_type@),
{
    proof {
        reveal_strlit("id");
        reveal_strlit("source_id");
        reveal_strlit("target_id");
        reveal_strlit("link_type");
        assert("id"@.len() == 2 && "source_id"@.len() == 9 && "target_id"@.len() == 9 && "link_type"@.len() == 9);
        assert("source_id"@[0] != "target_id"@[0] && "source_id"@[0] != "link_type"@[0] && "target_id"@[0] != "link_type"@[0]);
    }
    let f = field("link_type", JsonValue::Text(link_type.clone()), JsonFields::Nil);
    let f = field("target_id", JsonValue::Text(id_to_string(target)), f);
    let f = field("source_id", JsonValue::Text(id_to_string(source)), f);
    let f = field("id", JsonValue::Text(id_to_string(link_id)), f);
    JsonValue::Object(f)
}

/// The entry as a `PATCH /api/knot/:id` leaves it: a given name or
/// description replaces the old one; everything else stays.
pub fn updated_entry(e: &RegistryEntry, req: &UpdateKnotRequest) -> (r: RegistryEntry)
    ensures
        r@ == (EntryView {
            meta: CellMeta {
                name: match req.name { Some(n) => n, None => e.meta.name },
                description: match req.description { Some(d) => Some(d), None => e.meta.description },
            },
            ..e@
        }),
{
    let name = match &req.name {
        Some(n) => n.clone(),
        None => e.meta.name.clone(),
    };
    let description = match &req.description {
        Some(d) => Some(d.clone()),
        None => clone_opt_string(&e.meta.description),
    };
    let r = e.clone();
    RegistryEntry { meta: CellMeta { name, description }, ..r }
}

/// Applies a `PATCH /api/knot/:id` to the registry: when a name or a
/// description is given, the entry's metadata takes them; otherwise
/// nothing changes.
pub fn commit_update(registry: &mut KnotRegistry, id: u128, req: UpdateKnotRequest)
    ensures
        final(registry).spec_states() == old(registry).spec_states(),
        (req.name is None && req.description is None) || !old(registry).spec_entries().contains_key(id)
            ==> final(registry).spec_entries() == old(registry).spec_entries(),
        (req.name is Some || req.description is Some) && old(registry).spec_entries().contains_key(id)
            ==> final(registry).spec_entries() == old(registry).spec_entries().insert(id, EntryView {
                meta: CellMeta {
                    name: match req.name { Some(n) => n, None => old(registry).spec_entries()[id].meta.name },
                    description: match req.description {
                        Some(d) => Some(d),
                        None => old(registry).spec_entries()[id].meta.description,
                    },
                },
                ..old(registry).spec_entries()[id]
            }),
{
    if req.name.is_some() || req.description.is_some() {
        registry.update_meta(&id, req.name, req.description);
    }
}

/// Removes a deleted Knot: its entry and state go, and no entry lists it
/// as a child any more.
pub fn commit_delete(registry: &mut KnotRegistry, id: u128)
    ensures
        final(registry).spec_states() == old(registry).spec_states().remove(id),
        final(registry).spec_entries().dom() == old(registry).spec_entries().dom().remove(id),
        forall|k: u128| #[trigger] final(registry).spec_entries().contains_key(k) ==>
            final(registry).spec_entries()[k] == without_child(old(registry).spec_entries()[k], id),
{
    registry.remove(&id);
    registry.remove_child_id_everywhere(&id);
}

/// The error object of a failed JSON-RPC response.
#[derive(Debug)]
pub struct JsonRpcError {
    /// Error code, following the JSON-RPC 2.0 convention.
    pub code: i32,
    /// Human-readable message.
    pub message: String,
}

/// A JSON-RPC 2.0 request received over the WebSocket.
#[derive(Debug)]
pub struct JsonRpcRequest {
    pub jsonrpc: String,
    pub method: String,
    pub params: Option<JsonValue>,
    pub id: Option<JsonValue>,
}

/// A JSON-RPC 2.0 response: a result or an error, and the request's id.
#[derive(Debug)]
pub struct JsonRpcResponse {
    /// Always `2.0`.
    pub jsonrpc: String,
    pub result: Option<JsonValue>,
    pub error: Option<JsonRpcError>,
    pub id: Option<JsonValue>,
}

impl JsonRpcResponse {
    /// A successful response carrying `result`.
    pub fn ok(id: Option<JsonValue>, result: JsonValue) -> (r: Self)
        ensures
            r.jsonrpc@ == "2.0"@,
            r.result == Some(result),
            r.error is None,
            r.id == id,
    {
        proof { reveal_strlit("2.0"); }
        JsonRpcResponse { jsonrpc: "2.0".to_owned(), result: Some(result), error: None, id }
    }

    /// An error response with `code` and `message`.
    pub fn err(id: Option<JsonValue>, code: i32, message: String) -> (r: Self)
        ensures
            r.jsonrpc@ == "2.0"@,
            r.result is None,
            r.error matches Some(e) && e.code == code && e.message == message,
            r.id == id,
    {
        proof { reveal_strlit("2.0"); }
        JsonRpcResponse { jsonrpc: "2.0".to_owned(), result: None, error: Some(JsonRpcError { code, message }), id }
    }
}

/// The methods the WebSocket accepts.
#[derive(Debug, Clone, Copy, PartialEq, Eq)]
pub enum RpcMethod {
    /// `send_packet`: inject a packet.
    SendPacket,
    /// `get_graph`: a topology snapshot.
    GetGraph,
    /// Any other name.
    Unknown,
}

/// The method a request names.
pub fn rpc_method(name: &str) -> (m: RpcMethod)
    ensures
        m == (if name@ == "send_packet"@ {
            RpcMethod::SendPacket
        } else if name@ == "get_graph"@ {
            RpcMethod::GetGraph
        } else {
            RpcMethod::Unknown
        }),
{
    let n = name.to_owned();
    if n == "send_packet".to_owned() {
        RpcMethod::SendPacket
    } else if n == "get_graph".to_owned() {
        RpcMethod::GetGraph
    } else {
        RpcMethod::Unknown
    }
}

/// The answer to a frame that is not a JSON-RPC request.
pub fn parse_error(detail: &str) -> (r: JsonRpcResponse)
    ensures
        r.jsonrpc@ == "2.0"@,
        r.id is None,
        r.result is None,
        r.error matches Some(e) && e.code == PARSE_ERROR && e.message@ == "parse error: "@ + detail@,
{
    proof { reveal_strlit("parse error: "); }
    JsonRpcResponse::err(None, PARSE_ERROR, "parse error: ".to_owned().concat(detail))
}

/// The answer to a request naming an unknown method.
pub fn method_not_found(id: Option<JsonValue>, method: &str) -> (r: JsonRpcResponse)
    ensures
        r.id == id,
        r.result is None,
        r.jsonrpc@ == "2.0"@,
        r.error matches Some(e) && e.code == METHOD_NOT_FOUND && e.message@ == "method not found: "@ + method@,
{
    proof { reveal_strlit("method not found: "); }
    JsonRpcResponse::err(id, METHOD_NOT_FOUND, "method not found: ".to_owned().concat(method))
}

/// The answer when a result cannot be produced.
pub fn internal_error(id: Option<JsonValue>, detail: &str) -> (r: JsonRpcResponse)
    ensures
        r.id == id,
        r.result is None,
        r.jsonrpc@ == "2.0"@,
        r.error matches Some(e) && e.code == INTERNAL_ERROR && e.message@ == "internal error: "@ + detail@,
{
    proof { reveal_strlit("internal error: "); }
    JsonRpcResponse::err(id, INTERNAL_ERROR, "internal error: ".to_owned().concat(detail))
}

/// The `send_packet` method. `params` is what decoding the request's
/// parameters gave: absent, a decoding failure with its message, or the
/// request. Absent parameters and decoding failures are invalid params;
/// otherwise the packet to inject is returned with a `queued` result.
pub fn rpc_send_packet(id: Option<JsonValue>, params: Option<Result<InjectPacketRequest, String>>) -> (r: (JsonRpcResponse, Option<Packet>))
    ensures
        r.0.jsonrpc@ == "2.0"@,
        r.0.id == id,
        params is None ==> r.1 is None && r.0.result is None && (r.0.error matches Some(e)
            && e.code == INVALID_PARAMS && e.message@ == "params required for send_packet"@),
        params matches Some(Err(m)) ==> r.1 is None && r.0.result is None && (r.0.error matches Some(e)
            && e.code == INVALID_PARAMS && e.message@ == "invalid params: "@ + m@),
        params matches Some(Ok(req)) ==> r.0.error is None
            && (r.0.result matches Some(v) && v.spec_object_len() == Some(1nat)
                && v.spec_text_field("status"@) == Some("queued"@))
            && (r.1 matches Some(p)
                && p.target_id == req.target_id
                && p.sender_id == (match req.sender_id { Some(s) => s, None => NIL_ID })
                && p.priority == (match req.priority { Some(x) => x, None => DEFAULT_PRIORITY })
                && p.ttl_ms == (match req.ttl_ms { Some(t) => t, None => DEFAULT_TTL_MS })
                && p.payload == (match req.payload { Some(v) => v, None => JsonValue::Object(JsonFields::Nil) })),
{
    match params {
        None => {
            proof { reveal_strlit("params required for send_packet"); }
            (JsonRpcResponse::err(id, INVALID_PARAMS, "params required for send_packet".to_owned()), None)
        },
        Some(Err(m)) => {
            proof { reveal_strlit("invalid params: "); }
            (JsonRpcResponse::err(id, INVALID_PARAMS, "invalid params: ".to_owned().concat(m.as_str())), None)
        },
        Some(Ok(req)) => {
            let packet = req.into_packet();
            (JsonRpcResponse::ok(id, queued_body()), Some(packet))
        },
    }
}

} // verus!
