//! The route compiler: the routing table derived from a compiled schema,
//! and the handler that answers a request from the schema, the stored
//! values, and the host's callbacks.

use vstd::prelude::*;
use crate::attributes::{CompiledSchema, FieldSpecModel, SchemaModel, Serialization};
use crate::chars::str_eq;
use crate::error::{ChoicesError, ChoicesResult, ErrorModel};
use crate::index::{
    build_index, index_body_spec, index_content_type, listed_fields,
    lemma_index_lists_exactly_unskipped, ContentType,
};
use crate::json_codec::{json_dec, json_decode, json_enc, json_encode};
use crate::store::{apply_set, CallbackHost, ConfigStore};
use crate::text_codec::{text_dec, text_decode, text_enc, text_encode};
use crate::value::{FieldModel, FieldValue, ValueType};

verus! {

/// The largest request body a write handler accepts, in characters.
pub const BODY_LIMIT: usize = 16384;

/// The request methods the compiled routes answer.
#[derive(Debug, Clone, Copy, PartialEq, Eq)]
pub enum Method {
    Get,
    Put,
}

/// A response: status code, body, and the body's media type.
#[derive(Debug, PartialEq, Eq)]
pub struct Response {
    pub status: u16,
    pub body: String,
    pub content_type: ContentType,
}

/// Mathematical model of a response.
pub struct ResponseModel {
    pub status: u16,
    pub body: Seq<char>,
    pub content_type: ContentType,
}

impl View for Response {
    type V = ResponseModel;

    open spec fn view(&self) -> ResponseModel {
        ResponseModel { status: self.status, body: self.body@, content_type: self.content_type }
    }
}

/// One row of the routing table: the path segment under the root, which
/// handlers exist, and which field slot they touch.
#[derive(Debug, PartialEq, Eq)]
pub struct RouteEntry {
    pub field_name: String,
    pub field_index: usize,
    pub has_read: bool,
    pub has_write: bool,
}

/// Mathematical model of a routing-table row.
pub struct RouteEntryModel {
    pub name: Seq<char>,
    pub index: int,
    pub has_read: bool,
    pub has_write: bool,
}

impl View for RouteEntry {
    type V = RouteEntryModel;

    open spec fn view(&self) -> RouteEntryModel {
        RouteEntryModel {
            name: self.field_name@,
            index: self.field_index as int,
            has_read: self.has_read,
            has_write: self.has_write,
        }
    }
}

/// Whether a field gets a row in the routing table: it is not skipped and
/// at least one of its handlers is not hidden.
pub open spec fn routed(f: FieldSpecModel) -> bool {
    !f.attributes.skip && !(f.attributes.hide_read && f.attributes.hide_write)
}

/// The routing-table row for field `i`.
pub open spec fn route_entry_of(fields: Seq<FieldSpecModel>, i: int) -> RouteEntryModel {
    RouteEntryModel {
        name: fields[i].name,
        index: i,
        has_read: !fields[i].attributes.hide_read,
        has_write: !fields[i].attributes.hide_write,
    }
}

/// The routing-table rows for the first `n` fields, in declaration order.
pub open spec fn route_entries_up_to(fields: Seq<FieldSpecModel>, n: int) -> Seq<RouteEntryModel>
    decreases n,
{
    if n <= 0 {
        Seq::<RouteEntryModel>::empty()
    } else {
        route_entries_up_to(fields, n - 1) + if routed(fields[n - 1]) {
            seq![route_entry_of(fields, n - 1)]
        } else {
            Seq::<RouteEntryModel>::empty()
        }
    }
}

/// The whole routing table of a schema.
pub open spec fn route_entries(fields: Seq<FieldSpecModel>) -> Seq<RouteEntryModel> {
    route_entries_up_to(fields, fields.len() as int)
}

/// Compiles the routing table: one row per non-skipped field that keeps at
/// least one handler, in declaration order. A field with both handlers
/// hidden has no row and is reachable only through the index.
pub fn routes(schema: &CompiledSchema) -> (r: Vec<RouteEntry>)
    ensures
        r@.map_values(|e: RouteEntry| e@) == route_entries(schema@.fields),
{
    let ghost fm = schema@.fields;
    let mut table: Vec<RouteEntry> = Vec::new();
    proof {
        assert(table@.map_values(|e: RouteEntry| e@) =~= route_entries_up_to(fm, 0));
    }
    let mut i: usize = 0;
    while i < schema.fields.len()
        invariant
            0 <= i <= schema.fields@.len(),
            fm == schema@.fields,
            table@.map_values(|e: RouteEntry| e@) == route_entries_up_to(fm, i as int),
        decreases schema.fields@.len() - i,
    {
        let f = &schema.fields[i];
        proof {
            assert(fm[i as int] == f@);
        }
        if !f.attributes.skip && !(f.attributes.hide_read && f.attributes.hide_write) {
            let ghost prev = table@;
            table.push(
                RouteEntry {
                    field_name: f.name.clone(),
                    field_index: i,
                    has_read: !f.attributes.hide_read,
                    has_write: !f.attributes.hide_write,
                },
            );
            proof {
                assert(table@ =~= prev.push(table@.last()));
                assert(table@.last()@ == route_entry_of(fm, i as int));
                assert(table@.map_values(|e: RouteEntry| e@) =~= prev.map_values(
                    |e: RouteEntry| e@,
                ).push(table@.last()@));
                assert(table@.map_values(|e: RouteEntry| e@) =~= route_entries_up_to(
                    fm,
                    i + 1 as int,
                ));
            }
        } else {
            proof {
                assert(table@.map_values(|e: RouteEntry| e@) =~= route_entries_up_to(
                    fm,
                    i + 1 as int,
                ));
            }
        }
        i = i + 1;
    }
    table
}

/// The first declared, non-skipped field named `name`, searching from `i`.
pub open spec fn find_field_from(fields: Seq<FieldSpecModel>, name: Seq<char>, i: int) -> Option<
    int,
>
    decreases fields.len() - i
        when 0 <= i <= fields.len()
{
    if i >= fields.len() {
        None
    } else if !fields[i].attributes.skip && fields[i].name == name {
        Some(i)
    } else {
        find_field_from(fields, name, i + 1)
    }
}

/// The first declared, non-skipped field named `name`.
pub open spec fn find_field(fields: Seq<FieldSpecModel>, name: Seq<char>) -> Option<int> {
    find_field_from(fields, name, 0)
}

/// What `find_field_from` finds is a non-skipped field of that name.
pub proof fn lemma_find_field_props(fields: Seq<FieldSpecModel>, name: Seq<char>, i: int)
    requires
        0 <= i <= fields.len(),
    ensures
        find_field_from(fields, name, i) matches Some(j) ==> i <= j < fields.len() && fields[j].name
            == name && !fields[j].attributes.skip,
    decreases fields.len() - i,
{
    if i < fields.len() {
        lemma_find_field_props(fields, name, i + 1);
    }
}

/// Where a request path leads: the index resource, a field resource, or
/// nowhere.
pub enum RouteTarget {
    Index,
    Field(int),
    NotFound,
}

/// Resolves a request path (as segments) against the schema: the root path
/// alone is the index; the root path plus a field name is that field's
/// resource; anything else is unknown. Matching is by exact segments, with
/// no prefixes or wildcards.
pub open spec fn target_of(schema: SchemaModel, segs: Seq<Seq<char>>) -> RouteTarget {
    if segs.len() == 1 && segs[0] == schema.attributes.root_path {
        RouteTarget::Index
    } else if segs.len() == 2 && segs[0] == schema.attributes.root_path {
        match find_field(schema.fields, segs[1]) {
            Some(i) => RouteTarget::Field(i),
            None => RouteTarget::NotFound,
        }
    } else {
        RouteTarget::NotFound
    }
}

/// The response for a path that matches no route.
pub open spec fn not_found_model() -> ResponseModel {
    ResponseModel { status: 404, body: Seq::<char>::empty(), content_type: ContentType::Text }
}

/// The content type a backend's field bodies carry.
pub open spec fn body_ct(s: Serialization) -> ContentType {
    match s {
        Serialization::Text => ContentType::Text,
        Serialization::Structured => ContentType::Structured,
    }
}

/// Serializes a field value with the chosen backend.
pub open spec fn encode_for(s: Serialization, v: FieldModel) -> Result<Seq<char>, ErrorModel> {
    match s {
        Serialization::Text => text_enc(v),
        Serialization::Structured => Ok(json_enc(v)),
    }
}

/// Deserializes a request body with the chosen backend.
pub open spec fn decode_for(s: Serialization, t: ValueType, body: Seq<char>) -> Result<
    FieldModel,
    ErrorModel,
> {
    match s {
        Serialization::Text => text_dec(t, body),
        Serialization::Structured => json_dec(t, body),
    }
}

/// The read handler's response for field `i`: the serialized current
/// value, or a server error carrying the serialization failure.
pub open spec fn get_field_response(
    schema: SchemaModel,
    store: Seq<FieldModel>,
    i: int,
) -> ResponseModel {
    match encode_for(schema.attributes.serialization, store[i]) {
        Ok(b) => ResponseModel {
            status: 200,
            body: b,
            content_type: body_ct(schema.attributes.serialization),
        },
        Err(e) => ResponseModel {
            status: 500,
            body: e.describe_spec(),
            content_type: body_ct(schema.attributes.serialization),
        },
    }
}

/// The full outcome of a read request: the index body at the root, the
/// field's value where a read handler exists, and not-found everywhere
/// else (unknown paths, skipped fields, hidden readers).
pub open spec fn get_response_spec(
    schema: SchemaModel,
    store: Seq<FieldModel>,
    segs: Seq<Seq<char>>,
) -> ResponseModel {
    match target_of(schema, segs) {
        RouteTarget::Index => ResponseModel {
            status: 200,
            body: index_body_spec(schema),
            content_type: index_content_type(schema),
        },
        RouteTarget::Field(i) => if schema.fields[i].attributes.hide_read {
            not_found_model()
        } else {
            get_field_response(schema, store, i)
        },
        RouteTarget::NotFound => not_found_model(),
    }
}

/// The response for a body over the write handler's size limit.
pub open spec fn payload_too_large_model() -> ResponseModel {
    ResponseModel { status: 413, body: "payload too large"@, content_type: ContentType::Text }
}

/// The client-error response carrying a parse or validation failure.
pub open spec fn bad_request_model(e: ErrorModel) -> ResponseModel {
    ResponseModel { status: 400, body: e.describe_spec(), content_type: ContentType::Text }
}

/// Everything about a write request that is decided before the setter
/// pipeline runs: path resolution, the hidden-writer check, the size
/// limit, and the body parse. `Ok` carries the field slot and the parsed
/// value; `Err` carries the finished response, with the store untouched.
pub open spec fn put_precheck(
    schema: SchemaModel,
    segs: Seq<Seq<char>>,
    body: Seq<char>,
) -> Result<(int, FieldModel), ResponseModel> {
    match target_of(schema, segs) {
        RouteTarget::Field(i) => if schema.fields[i].attributes.hide_write {
            Err(not_found_model())
        } else if body.len() > BODY_LIMIT {
            Err(payload_too_large_model())
        } else {
            match decode_for(
                schema.attributes.serialization,
                schema.fields[i].value_type,
                body,
            ) {
                Ok(v) => Ok((i, v)),
                Err(e) => Err(bad_request_model(e)),
            }
        },
        _ => Err(not_found_model()),
    }
}

/// The response for a path that matches no route.
pub fn not_found() -> (r: Response)
    ensures
        r@ == not_found_model(),
{
    Response { status: 404, body: String::new(), content_type: ContentType::Text }
}

/// The response mapping a failed storage acquisition (for example a
/// poisoned lock) to a server error, as the embedding application sends
/// it.
pub fn access_error_response(e: &ChoicesError) -> (r: Response)
    ensures
        r@.status == 500,
        r@.body == e.describe_spec(),
        r@.content_type == ContentType::Text,
{
    Response { status: 500, body: e.describe(), content_type: ContentType::Text }
}

/// Answers one read request against the schema from shared access: under
/// the reader/writer discipline a read handler holds only the read side,
/// so it never touches the store.
#[verifier::loop_isolation(false)]
pub fn handle_read(schema: &CompiledSchema, store: &ConfigStore, path: &Vec<String>) -> (r:
    Response)
    requires
        store@.len() == schema@.fields.len(),
    ensures
        r@ == get_response_spec(schema@, store@, path.deep_view()),
{
    let ghost sm = schema@;
    let ghost segs = path.deep_view();
    proof {
        assert(segs.len() == path@.len());
        assert(forall|j: int| 0 <= j < path@.len() ==> #[trigger] segs[j] == path@[j]@);
    }
    let mut field_idx: Option<usize> = None;
    let mut is_index = false;
    if path.len() >= 1 && path.len() <= 2 && str_eq(
        path[0].as_str(),
        schema.attributes.root_path.as_str(),
    ) {
        proof {
            assert(segs[0] == path@[0]@);
        }
        if path.len() == 1 {
            is_index = true;
        } else {
            proof {
                assert(segs[1] == path@[1]@);
            }
            let name = &path[1];
            proof {
                assert(name@ == segs[1]);
            }
            let mut i: usize = 0;
            while i < schema.fields.len()
                invariant
                    0 <= i <= schema.fields@.len(),
                    field_idx is None ==> find_field(sm.fields, name@) == find_field_from(
                        sm.fields,
                        name@,
                        i as int,
                    ),
                    field_idx matches Some(j) ==> find_field(sm.fields, name@) == Some(j as int)
                        && j < schema.fields@.len(),
                decreases schema.fields@.len() - i,
            {
                if field_idx.is_none() {
                    let f = &schema.fields[i];
                    proof {
                        assert(sm.fields[i as int] == f@);
                    }
                    if !f.attributes.skip && str_eq(f.name.as_str(), name.as_str()) {
                        field_idx = Some(i);
                    }
                }
                i = i + 1;
            }
            proof {
                if field_idx is None {
                    assert(find_field(sm.fields, name@) is None);
                }
            }
        }
    }
    if is_index {
        let idx = build_index(schema);
        Response { status: 200, body: idx.body, content_type: idx.content_type }
    } else {
        match field_idx {
            Some(i) => {
                if schema.fields[i].attributes.hide_read {
                    not_found()
                } else {
                    let enc: ChoicesResult<String> = match schema.attributes.serialization {
                        Serialization::Text => text_encode(store.value_at(i)),
                        Serialization::Structured => Ok(json_encode(store.value_at(i))),
                    };
                    match enc {
                        Ok(b) => Response {
                            status: 200,
                            body: b,
                            content_type: match schema.attributes.serialization {
                                Serialization::Text => ContentType::Text,
                                Serialization::Structured => ContentType::Structured,
                            },
                        },
                        Err(e) => Response {
                            status: 500,
                            body: e.describe(),
                            content_type: match schema.attributes.serialization {
                                Serialization::Text => ContentType::Text,
                                Serialization::Structured => ContentType::Structured,
                            },
                        },
                    }
                }
            },
            None => not_found(),
        }
    }
}

/// Answers one request against the schema: the caller has already acquired
/// whatever access the schema's lock kind demands, and hands in the store.
/// Reads never change the store; a write changes exactly the addressed
/// slot (plus whatever slots its observation callback rewrites), and only
/// after its validator accepted the value. Any client error leaves the
/// store as it was.
#[verifier::loop_isolation(false)]
pub fn handle_request<H: CallbackHost>(
    schema: &CompiledSchema,
    store: &mut ConfigStore,
    host: &H,
    method: Method,
    path: &Vec<String>,
    body: &str,
) -> (r: Response)
    requires
        old(store)@.len() == schema@.fields.len(),
    ensures
        final(store)@.len() == old(store)@.len(),
        r@.status == 400 ==> final(store)@ == old(store)@,
        method == Method::Get ==> final(store)@ == old(store)@ && r@ == get_response_spec(
            schema@,
            old(store)@,
            path.deep_view(),
        ),
        method == Method::Put ==> match put_precheck(schema@, path.deep_view(), body@) {
            Err(resp) => r@ == resp && final(store)@ == old(store)@,
            Ok(p) => ({
                ||| (r@.status == 400 && final(store)@ == old(store)@
                    && schema@.fields[p.0].attributes.validator is Some && (exists|m: Seq<char>|
                    r@.body == ErrorModel::ValidationError(m).describe_spec()))
                ||| (r@.status == 200 && r@.body == Seq::<char>::empty() && final(store)@[p.0]
                    == p.1 && (schema@.fields[p.0].attributes.on_set is None ==> final(store)@
                    == old(store)@.update(p.0, p.1)))
            }),
        },
        method == Method::Put && (put_precheck(schema@, path.deep_view(), body@) matches Ok(p)
            && schema@.fields[p.0].attributes.validator is None) ==> r@.status == 200,
{
    let ghost sm = schema@;
    let ghost segs = path.deep_view();
    proof {
        assert(segs.len() == path@.len());
        assert(forall|j: int| 0 <= j < path@.len() ==> #[trigger] segs[j] == path@[j]@);
    }
    match method {
        Method::Get => {
            handle_read(schema, &*store, path)
        },
        Method::Put => {
            let mut field_idx: Option<usize> = None;
            let mut is_index = false;
            if path.len() >= 1 && path.len() <= 2 && str_eq(
                path[0].as_str(),
                schema.attributes.root_path.as_str(),
            ) {
                proof {
                    assert(segs[0] == path@[0]@);
                }
                if path.len() == 1 {
                    is_index = true;
                } else {
                    proof {
                        assert(segs[1] == path@[1]@);
                    }
                    let name = &path[1];
                    proof {
                        assert(name@ == segs[1]);
                    }
                    let mut i: usize = 0;
                    while i < schema.fields.len()
                        invariant
                            0 <= i <= schema.fields@.len(),
                            field_idx is None ==> find_field(sm.fields, name@) == find_field_from(
                                sm.fields,
                                name@,
                                i as int,
                            ),
                            field_idx matches Some(j) ==> find_field(sm.fields, name@) == Some(
                                j as int,
                            ) && j < schema.fields@.len(),
                        decreases schema.fields@.len() - i,
                    {
                        if field_idx.is_none() {
                            let f = &schema.fields[i];
                            proof {
                                assert(sm.fields[i as int] == f@);
                            }
                            if !f.attributes.skip && str_eq(f.name.as_str(), name.as_str()) {
                                field_idx = Some(i);
                            }
                        }
                        i = i + 1;
                    }
                    proof {
                        if field_idx is None {
                            assert(find_field(sm.fields, name@) is None);
                        }
                    }
                }
            }
            proof {
                match target_of(sm, segs) {
                    RouteTarget::Index => {
                        assert(is_index);
                    },
                    RouteTarget::Field(i) => {
                        assert(field_idx matches Some(j) && j == i);
                    },
                    RouteTarget::NotFound => {
                        assert(!is_index && field_idx is None);
                    },
                }
            }
            match field_idx {
                Some(i) => {
                    if schema.fields[i].attributes.hide_write {
                        not_found()
                    } else if body.unicode_len() > BODY_LIMIT {
                        Response {
                            status: 413,
                            body: String::from_str("payload too large"),
                            content_type: ContentType::Text,
                        }
                    } else {
                        let dec: ChoicesResult<FieldValue> = match schema
                            .attributes
                            .serialization {
                            Serialization::Text => text_decode(
                                schema.fields[i].value_type,
                                body,
                            ),
                            Serialization::Structured => json_decode(
                                schema.fields[i].value_type,
                                body,
                            ),
                        };
                        match dec {
                            Err(e) => Response {
                                status: 400,
                                body: e.describe(),
                                content_type: ContentType::Text,
                            },
                            Ok(v) => {
                                let ghost vm = v@;
                                match apply_set(
                                    store,
                                    i,
                                    v,
                                    host,
                                    &schema.fields[i].attributes,
                                ) {
                                    Ok(_) => Response {
                                        status: 200,
                                        body: String::new(),
                                        content_type: ContentType::Text,
                                    },
                                    Err(e) => {
                                        proof {
                                            let em = e@;
                                            assert(em matches ErrorModel::ValidationError(m)
                                                ==> e.describe_spec()
                                                == ErrorModel::ValidationError(
                                                em->ValidationError_0,
                                            ).describe_spec());
                                        }
                                        Response {
                                            status: 400,
                                            body: e.describe(),
                                            content_type: ContentType::Text,
                                        }
                                    },
                                }
                            },
                        }
                    }
                },
                None => not_found(),
            }
        },
    }
}

/// The programmatic setter: looks the field up by name and runs the same
/// validate / observe / commit pipeline as the write handler, surfacing a
/// validation failure directly to the caller. A name that matches no
/// non-skipped field is an error and the store is untouched.
#[verifier::loop_isolation(false)]
pub fn set_field<H: CallbackHost>(
    schema: &CompiledSchema,
    store: &mut ConfigStore,
    host: &H,
    name: &str,
    value: FieldValue,
) -> (r: ChoicesResult<()>)
    requires
        old(store)@.len() == schema@.fields.len(),
    ensures
        final(store)@.len() == old(store)@.len(),
        match find_field(schema@.fields, name@) {
            Some(i) => {
                &&& (r matches Err(e) ==> final(store)@ == old(store)@ && (e@ matches
                ErrorModel::ValidationError(_)) && schema@.fields[i].attributes.validator is Some)
                &&& (schema@.fields[i].attributes.validator is None ==> r is Ok)
                &&& (r is Ok ==> final(store)@[i] == value@
                    && (schema@.fields[i].attributes.on_set is None ==> final(store)@ == old(
                    store,
                )@.update(i, value@)))
            },
            None => r matches Err(e) && (e@ matches ErrorModel::ParseError(_)) && final(store)@
                == old(store)@,
        },
{
    let ghost sm = schema@;
    let mut field_idx: Option<usize> = None;
    let mut i: usize = 0;
    while i < schema.fields.len()
        invariant
            0 <= i <= schema.fields@.len(),
            field_idx is None ==> find_field(sm.fields, name@) == find_field_from(
                sm.fields,
                name@,
                i as int,
            ),
            field_idx matches Some(j) ==> find_field(sm.fields, name@) == Some(j as int) && j
                < schema.fields@.len(),
        decreases schema.fields@.len() - i,
    {
        if field_idx.is_none() {
            let f = &schema.fields[i];
            proof {
                assert(sm.fields[i as int] == f@);
            }
            if !f.attributes.skip && str_eq(f.name.as_str(), name) {
                field_idx = Some(i);
            }
        }
        i = i + 1;
    }
    match field_idx {
        Some(i) => apply_set(store, i, value, host, &schema.fields[i].attributes),
        None => Err(ChoicesError::ParseError(String::from_str("no field of this name"))),
    }
}

/// Parsing a body never fails silently into an unserializable value: a
/// value the chosen backend decoded, the same backend can serialize.
pub proof fn lemma_decode_then_encode(s: Serialization, t: ValueType, body: Seq<char>)
    ensures
        decode_for(s, t, body) matches Ok(v) ==> encode_for(s, v) is Ok,
{
    match s {
        Serialization::Text => {
            if decode_for(s, t, body) matches Ok(v) {
                assert(text_dec(t, body) matches Ok(w) && (w matches FieldModel::Scalar(_) || w
                    matches FieldModel::Optional(_)));
            }
        },
        Serialization::Structured => {
        },
    }
}

/// Read-after-write consistency: when a write request passes its prechecks
/// and the pipeline commits, a subsequent read of the same path returns
/// the new value in serialized form, whatever other slots the observation
/// callback rewrote in between.
pub proof fn lemma_read_after_write(
    schema: SchemaModel,
    segs: Seq<Seq<char>>,
    body: Seq<char>,
    mid: Seq<FieldModel>,
)
    requires
        put_precheck(schema, segs, body) matches Ok(p) && 0 <= p.0 < mid.len()
            && !schema.fields[p.0].attributes.hide_read,
    ensures
        ({
            let p = put_precheck(schema, segs, body)->Ok_0;
            let after = mid.update(p.0, p.1);
            &&& get_response_spec(schema, after, segs).status == 200
            &&& get_response_spec(schema, after, segs).body == encode_for(
                schema.attributes.serialization,
                p.1,
            )->Ok_0
        }),
{
    let p = put_precheck(schema, segs, body)->Ok_0;
    let after = mid.update(p.0, p.1);
    lemma_decode_then_encode(schema.attributes.serialization, schema.fields[p.0].value_type, body);
    assert(target_of(schema, segs) == RouteTarget::Field(p.0));
    assert(after[p.0] == p.1);
}

/// A field with both handlers hidden answers not-found to both reads and
/// writes of its path, yet still appears in the index listing.
pub proof fn lemma_hidden_field_unrouted(
    schema: SchemaModel,
    store: Seq<FieldModel>,
    segs: Seq<Seq<char>>,
    body: Seq<char>,
    i: int,
)
    requires
        target_of(schema, segs) == RouteTarget::Field(i),
        schema.fields[i].attributes.hide_read,
        schema.fields[i].attributes.hide_write,
    ensures
        get_response_spec(schema, store, segs) == not_found_model(),
        put_precheck(schema, segs, body) == Err::<(int, FieldModel), ResponseModel>(
            not_found_model(),
        ),
        listed_fields(schema.fields).contains(schema.fields[i]),
{
    lemma_find_field_props(schema.fields, segs[1], 0);
    assert(0 <= i < schema.fields.len() && !schema.fields[i].attributes.skip);
    lemma_index_lists_exactly_unskipped(schema.fields);
}

} // verus!
