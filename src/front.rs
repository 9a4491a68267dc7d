//! Decoding of request bodies into requests to dispatch or errors to answer.

use vstd::prelude::*;

use crate::error_codes::INVALID_REQUEST;
use crate::json::{json_of_bytes, member, parse_json, present, same_text, Json};
use crate::protocol::{BrpBatch, BrpError, BrpPayload, BrpRequest, BrpResponse, JSONRPC_VERSION};

verus! {

/// Why an item is not a request object.
pub const NOT_AN_OBJECT: &'static str = "invalid type: expected a request object";

/// A request without `jsonrpc`.
pub const MISSING_JSONRPC: &'static str = "missing field `jsonrpc`";

/// A request whose `jsonrpc` is not a string.
pub const BAD_JSONRPC: &'static str = "invalid type: `jsonrpc` must be a string";

/// A request without `method`.
pub const MISSING_METHOD: &'static str = "missing field `method`";

/// A request whose `method` is not a string.
pub const BAD_METHOD: &'static str = "invalid type: `method` must be a string";

/// A request that names another protocol version.
pub const WRONG_VERSION: &'static str = "JSON-RPC request requires `\"jsonrpc\": \"2.0\"`";

/// Why `v` is not an acceptable request, or `None` when it is one.
pub open spec fn fault(v: Json) -> Option<Seq<char>> {
    match v {
        Json::Object(f) => match member(f@, "jsonrpc"@) {
            None => Some(MISSING_JSONRPC@),
            Some(Json::Str(version)) => match member(f@, "method"@) {
                None => Some(MISSING_METHOD@),
                Some(Json::Str(_)) => if version@ == JSONRPC_VERSION@ {
                    None
                } else {
                    Some(WRONG_VERSION@)
                },
                Some(_) => Some(BAD_METHOD@),
            },
            Some(_) => Some(BAD_JSONRPC@),
        },
        _ => Some(NOT_AN_OBJECT@),
    }
}

/// The correlation token of `v`, read before any other check.
pub open spec fn token(v: Json) -> Option<Json> {
    match v {
        Json::Object(f) => present(member(f@, "id"@)),
        _ => None,
    }
}

/// The method member of `v`, when it is a string.
pub open spec fn method_name(v: Json) -> Option<String> {
    match v {
        Json::Object(f) => match member(f@, "method"@) {
            Some(Json::Str(m)) => Some(m),
            _ => None,
        },
        _ => None,
    }
}

/// The parameters of `v`.
pub open spec fn params_of(v: Json) -> Option<Json> {
    match v {
        Json::Object(f) => present(member(f@, "params"@)),
        _ => None,
    }
}

/// What the front end does with one item: answer it at once, or dispatch it.
#[derive(Debug, PartialEq)]
pub enum ItemPlan {
    Reply(BrpResponse),
    Dispatch(BrpRequest),
}

/// `e` is the invalid-request error with message `msg`.
pub open spec fn is_invalid_request(e: BrpError, msg: Seq<char>) -> bool {
    &&& e.code == INVALID_REQUEST
    &&& e.message@ == msg
    &&& e.data is None
}

/// `r` is the response that reports `msg` as an invalid request, with token `id`.
pub open spec fn rejects(r: BrpResponse, id: Option<Json>, msg: Seq<char>) -> bool {
    &&& r.jsonrpc@ == JSONRPC_VERSION@
    &&& r.id == id
    &&& r.payload is Error
    &&& is_invalid_request(r.payload->Error_0, msg)
}

/// `p` is what the front end owes the item `v`.
pub open spec fn plans(v: Json, p: ItemPlan) -> bool {
    match p {
        ItemPlan::Reply(r) => fault(v) is Some && rejects(r, token(v), fault(v)->0),
        ItemPlan::Dispatch(q) => decodes(v, q),
    }
}

/// `q` is the request that the acceptable item `v` holds.
pub open spec fn decodes(v: Json, q: BrpRequest) -> bool {
    &&& fault(v) is None
    &&& q.jsonrpc@ == JSONRPC_VERSION@
    &&& method_name(v) == Some(q.method)
    &&& q.id == token(v)
    &&& q.params == params_of(v)
}

/// The correlation token that the response to `p` carries.
pub open spec fn plan_token(p: ItemPlan) -> Option<Json> {
    match p {
        ItemPlan::Reply(r) => r.id,
        ItemPlan::Dispatch(q) => q.id,
    }
}

fn text(s: &str) -> (r: String)
    ensures
        r@ == s@,
{
    String::from_str(s)
}

fn take_present(v: Option<Json>) -> (r: Option<Json>)
    ensures
        r == present(v),
{
    match v {
        Some(Json::Null) => None,
        other => other,
    }
}

/// The members that a request reads, each the last of its name.
struct Members {
    jsonrpc: Option<Json>,
    method: Option<Json>,
    id: Option<Json>,
    params: Option<Json>,
}

fn take_members(fields: Vec<(String, Json)>) -> (r: Members)
    ensures
        r.jsonrpc == member(fields@, "jsonrpc"@),
        r.method == member(fields@, "method"@),
        r.id == member(fields@, "id"@),
        r.params == member(fields@, "params"@),
{
    let ghost all = fields@;
    let mut rest = fields;
    let mut m = Members { jsonrpc: None, method: None, id: None, params: None };
    while rest.len() > 0
        invariant
            all.take(rest@.len() as int) == rest@,
            rest@.len() <= all.len(),
            member(all, "jsonrpc"@) == if m.jsonrpc is Some { m.jsonrpc } else { member(rest@, "jsonrpc"@) },
            member(all, "method"@) == if m.method is Some { m.method } else { member(rest@, "method"@) },
            member(all, "id"@) == if m.id is Some { m.id } else { member(rest@, "id"@) },
            member(all, "params"@) == if m.params is Some { m.params } else { member(rest@, "params"@) },
        decreases rest.len(),
    {
        let ghost before = rest@;
        let (k, v) = rest.pop().unwrap();
        assert(rest@ == before.drop_last());
        proof {
            reveal_strlit("jsonrpc");
            reveal_strlit("method");
            reveal_strlit("id");
            reveal_strlit("params");
            assert("params"@[0] != "method"@[0]);
            assert(before.last() == (k, v));
            assert("id"@.len() != "jsonrpc"@.len() && "id"@.len() != "method"@.len());
        }
        assert(all.take(rest@.len() as int) == rest@) by {
            assert(all.take(rest@.len() as int) =~= before.take(rest@.len() as int));
        }
        if same_text(&k, "jsonrpc") {
            if m.jsonrpc.is_none() {
                m.jsonrpc = Some(v);
            }
        } else if same_text(&k, "method") {
            if m.method.is_none() {
                m.method = Some(v);
            }
        } else if same_text(&k, "id") {
            if m.id.is_none() {
                m.id = Some(v);
            }
        } else if same_text(&k, "params") {
            if m.params.is_none() {
                m.params = Some(v);
            }
        }
    }
    m
}

fn reject(id: Option<Json>, msg: &str) -> (r: ItemPlan)
    ensures
        r is Reply,
        rejects(r->Reply_0, id, msg@),
{
    let err = BrpError { code: INVALID_REQUEST, message: text(msg), data: None };
    ItemPlan::Reply(BrpResponse::new(id, Err(err)))
}

/// Decodes one item of a request body. The correlation token is read first, so
/// that an item which fails a later check still has its token echoed.
pub fn process_single_request(request: Json) -> (r: ItemPlan)
    ensures
        plans(request, r),
{
    let fields = match request {
        Json::Object(fields) => fields,
        _ => {
            return reject(None, NOT_AN_OBJECT);
        },
    };
    let m = take_members(fields);
    let id = take_present(m.id);
    let jsonrpc = match m.jsonrpc {
        None => {
            return reject(id, MISSING_JSONRPC);
        },
        Some(Json::Str(s)) => s,
        Some(_) => {
            return reject(id, BAD_JSONRPC);
        },
    };
    let method = match m.method {
        None => {
            return reject(id, MISSING_METHOD);
        },
        Some(Json::Str(s)) => s,
        Some(_) => {
            return reject(id, BAD_METHOD);
        },
    };
    if !same_text(&jsonrpc, JSONRPC_VERSION) {
        return reject(id, WRONG_VERSION);
    }
    let params = take_present(m.params);
    ItemPlan::Dispatch(BrpRequest { jsonrpc, method, id, params })
}

/// What the front end does with a whole body.
#[derive(Debug, PartialEq)]
pub enum BatchPlan {
    /// The body is not JSON; the response reports it.
    Invalid(BrpResponse),
    /// The body is one item.
    Single(ItemPlan),
    /// The body is an array; one plan per item, in order.
    Batch(Vec<ItemPlan>),
}

/// `r` is what the front end owes a body that parsed as `doc`.
pub open spec fn plans_body(doc: Json, r: BatchPlan) -> bool {
    match doc {
        Json::Array(items) => r is Batch && plans_all(items@, r->Batch_0@),
        _ => r is Single && plans(doc, r->Single_0),
    }
}

/// `ps` holds one plan for each of `items`, in the same order.
pub open spec fn plans_all(items: Seq<Json>, ps: Seq<ItemPlan>) -> bool {
    &&& ps.len() == items.len()
    &&& forall|k: int| 0 <= k < items.len() ==> #[trigger] plans(items[k], ps[k])
}

/// Plans each item of an array body, keeping their order.
fn plan_items(items: Vec<Json>) -> (r: Vec<ItemPlan>)
    ensures
        plans_all(items@, r@),
{
    let ghost all = items@;
    let n = items.len();
    let mut rest = items;
    let mut backwards: Vec<ItemPlan> = Vec::new();
    while rest.len() > 0
        invariant
            rest@.len() + backwards@.len() == n,
            n == all.len(),
            rest@ == all.take(rest@.len() as int),
            forall|k: int|
                0 <= k < backwards@.len() ==> #[trigger] plans(all[n - 1 - k], backwards@[k]),
        decreases rest.len(),
    {
        let item = rest.pop().unwrap();
        assert(rest@ =~= all.take(rest@.len() as int));
        backwards.push(process_single_request(item));
    }
    let ghost rev = backwards@;
    let mut out: Vec<ItemPlan> = Vec::new();
    while backwards.len() > 0
        invariant
            out@.len() + backwards@.len() == n,
            n == all.len(),
            rev.len() == n,
            backwards@ == rev.take(backwards@.len() as int),
            forall|k: int| 0 <= k < n ==> #[trigger] plans(all[n - 1 - k], rev[k]),
            forall|k: int| 0 <= k < out@.len() ==> #[trigger] plans(all[k], out@[k]),
        decreases backwards.len(),
    {
        let p = backwards.pop().unwrap();
        assert(backwards@ =~= rev.take(backwards@.len() as int));
        proof {
            let j = out@.len() as int;
            assert(plans(all[n - 1 - (n - 1 - j)], rev[n - 1 - j]));
        }
        out.push(p);
    }
    out
}

/// Decodes a request body: a parse failure is answered at once with a null
/// token, an array is planned item by item, anything else as one item.
pub fn process_brp_batch(bytes: &[u8]) -> (r: BatchPlan)
    ensures
        match json_of_bytes(bytes@) {
            Ok(doc) => plans_body(doc, r),
            Err(msg) => r is Invalid && rejects(r->Invalid_0, None, msg),
        },
{
    match parse_json(bytes) {
        Ok(doc) => match BrpBatch::from_json(doc) {
            BrpBatch::Batch(items) => BatchPlan::Batch(plan_items(items)),
            BrpBatch::Single(item) => BatchPlan::Single(process_single_request(item)),
        },
        Err(msg) => {
            let err = BrpError { code: INVALID_REQUEST, message: msg, data: None };
            BatchPlan::Invalid(BrpResponse::new(None, Err(err)))
        },
    }
}

/// Two plans that answer alike: the same token, and the same error or the
/// same request.
pub open spec fn same_answer(p: ItemPlan, o: ItemPlan) -> bool {
    match (p, o) {
        (ItemPlan::Reply(r), ItemPlan::Reply(s)) => {
            &&& r.id == s.id
            &&& r.payload is Error && s.payload is Error
            &&& r.payload->Error_0.code == s.payload->Error_0.code
            &&& r.payload->Error_0.message@ == s.payload->Error_0.message@
        },
        (ItemPlan::Dispatch(q), ItemPlan::Dispatch(t)) => {
            &&& q.method@ == t.method@
            &&& q.id == t.id
            &&& q.params == t.params
        },
        _ => false,
    }
}

/// The response to an item carries the item's own correlation token: for an
/// acceptable request, the request's `id`, and for a rejected object, the
/// `id` member it had.
pub proof fn lemma_token_echoed(v: Json, p: ItemPlan)
    requires
        plans(v, p),
    ensures
        plan_token(p) == token(v),
        fault(v) is None ==> p is Dispatch,
        fault(v) is Some ==> p is Reply,
{
}

/// An item is answered the same way whatever else stands in its batch: in two
/// batches of the same length that differ only at position `k`, every other
/// position gets the same answer.
pub proof fn lemma_batch_items_independent(
    a: Seq<Json>,
    b: Seq<Json>,
    pa: Seq<ItemPlan>,
    pb: Seq<ItemPlan>,
    k: int,
)
    requires
        a.len() == b.len(),
        forall|j: int| 0 <= j < a.len() && j != k ==> a[j] == b[j],
        plans_all(a, pa),
        plans_all(b, pb),
    ensures
        pa.len() == a.len() && pb.len() == b.len(),
        forall|j: int| 0 <= j < a.len() && j != k ==> #[trigger] same_answer(pa[j], pb[j]),
{
    assert forall|j: int| 0 <= j < a.len() && j != k implies #[trigger] same_answer(pa[j], pb[j]) by {
        assert(plans(a[j], pa[j]));
        assert(plans(b[j], pb[j]));
    }
}

} // verus!
