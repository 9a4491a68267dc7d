//! Request, response and error envelopes.

use vstd::prelude::*;

use crate::error_codes::{
    COMPONENT_ERROR, COMPONENT_NOT_PRESENT, ENTITY_NOT_FOUND, INTERNAL_ERROR, SELF_REPARENT,
};
use crate::json::Json;

verus! {

/// The protocol version that requests must name and responses carry.
pub const JSONRPC_VERSION: &'static str = "2.0";

/// A request envelope.
#[derive(Debug, PartialEq)]
pub struct BrpRequest {
    /// Must be `"2.0"` for the request to be accepted.
    pub jsonrpc: String,
    /// The name of the method to run.
    pub method: String,
    /// The client's correlation token, echoed in the response.
    pub id: Option<Json>,
    /// The method's parameters, handed to it unread.
    pub params: Option<Json>,
}

/// An error object.
#[derive(Debug, PartialEq)]
pub struct BrpError {
    /// The kind of error, one of `error_codes`.
    pub code: i16,
    /// A short description of the error.
    pub message: String,
    /// Optional further detail.
    pub data: Option<Json>,
}

/// What a method hands back: a value, or an error object.
pub type BrpResult = Result<Json, BrpError>;

/// The payload of a response: exactly one of a result and an error.
#[derive(Debug, PartialEq)]
pub enum BrpPayload {
    Result(Json),
    Error(BrpError),
}

/// A response envelope.
#[derive(Debug, PartialEq)]
pub struct BrpResponse {
    /// Always `"2.0"`.
    pub jsonrpc: &'static str,
    /// The correlation token of the request; `None` is written as `null`.
    pub id: Option<Json>,
    /// The result or the error.
    pub payload: BrpPayload,
}

/// A request body: one request, or an array of them, each still undecoded.
#[derive(Debug, PartialEq)]
pub enum BrpBatch {
    Batch(Vec<Json>),
    Single(Json),
}

impl BrpBatch {
    /// Reads a parsed body: an array is a batch of its items, anything else
    /// is one item.
    pub fn from_json(doc: Json) -> (r: Self)
        ensures
            match doc {
                Json::Array(items) => r == BrpBatch::Batch(items),
                _ => r == BrpBatch::Single(doc),
            },
    {
        match doc {
            Json::Array(items) => BrpBatch::Batch(items),
            other => BrpBatch::Single(other),
        }
    }
}

/// The payload that carries `result`.
pub open spec fn payload_of(result: BrpResult) -> BrpPayload {
    match result {
        Ok(v) => BrpPayload::Result(v),
        Err(e) => BrpPayload::Error(e),
    }
}

impl From<BrpResult> for BrpPayload {
    fn from(value: BrpResult) -> (r: Self)
        ensures
            r == payload_of(value),
    {
        match value {
            Ok(v) => BrpPayload::Result(v),
            Err(err) => BrpPayload::Error(err),
        }
    }
}

impl vstd::std_specs::convert::FromSpecImpl<BrpResult> for BrpPayload {
    open spec fn obeys_from_spec() -> bool {
        true
    }

    open spec fn from_spec(v: BrpResult) -> Self {
        payload_of(v)
    }
}

impl BrpResponse {
    /// The response to a request with token `id` whose outcome is `result`.
    pub fn new(id: Option<Json>, result: BrpResult) -> (r: Self)
        ensures
            r.jsonrpc@ == JSONRPC_VERSION@,
            r.id == id,
            r.payload == payload_of(result),
    {
        BrpResponse { jsonrpc: JSONRPC_VERSION, id, payload: BrpPayload::from(result) }
    }
}

/// An entity of the host's world, as its index and generation.
#[derive(Clone, Copy, PartialEq, Eq, Structural)]
pub struct EntityId {
    pub index: u32,
    pub generation: u32,
}

/// The index of the world's placeholder entity.
pub const PLACEHOLDER_INDEX: u32 = 4294967295;

/// The decimal digit `d`.
pub open spec fn digit(d: nat) -> char {
    seq!['0', '1', '2', '3', '4', '5', '6', '7', '8', '9'][d as int]
}

/// `n` written in decimal, without leading zeros.
pub open spec fn decimal(n: nat) -> Seq<char>
    decreases n,
{
    if n < 10 {
        seq![digit(n)]
    } else {
        decimal(n / 10).push(digit(n % 10))
    }
}

/// Relies on the `Display` of `u32`: decimal digits, no sign, no leading zeros.
#[verifier::external_body]
fn decimal_string(n: u32) -> (r: String)
    ensures
        r@ == decimal(n as nat),
{
    n.to_string()
}

/// How an entity is named in messages: `PLACEHOLDER`, or index `v` generation.
pub open spec fn entity_text(e: EntityId) -> Seq<char> {
    if e.index == PLACEHOLDER_INDEX && e.generation == 1 {
        "PLACEHOLDER"@
    } else {
        decimal(e.index as nat) + "v"@ + decimal(e.generation as nat)
    }
}

impl EntityId {
    /// The entity's name in messages.
    pub fn text(&self) -> (r: String)
        ensures
            r@ == entity_text(*self),
    {
        if self.index == PLACEHOLDER_INDEX && self.generation == 1 {
            String::from_str("PLACEHOLDER")
        } else {
            let g = decimal_string(self.generation);
            decimal_string(self.index).concat("v").concat(g.as_str())
        }
    }
}

impl BrpError {
    /// The entity does not exist.
    pub fn entity_not_found(entity: EntityId) -> (r: Self)
        ensures
            r.code == ENTITY_NOT_FOUND,
            r.message@ == "Entity "@ + entity_text(entity) + " not found"@,
            r.data is None,
    {
        let name = entity.text();
        let message = String::from_str("Entity ").concat(name.as_str()).concat(" not found");
        BrpError { code: ENTITY_NOT_FOUND, message, data: None }
    }

    /// The entity does not hold the component `component`.
    pub fn component_not_present(component: &str, entity: EntityId) -> (r: Self)
        ensures
            r.code == COMPONENT_NOT_PRESENT,
            r.message@ == "Component `"@ + component@ + "` not present in Entity "@ + entity_text(
                entity,
            ),
            r.data is None,
    {
        let name = entity.text();
        let message = String::from_str("Component `").concat(component).concat(
            "` not present in Entity ",
        ).concat(name.as_str());
        BrpError { code: COMPONENT_NOT_PRESENT, message, data: None }
    }

    /// A component could not be read or written; `error` says why.
    pub fn component_error(error: &str) -> (r: Self)
        ensures
            r.code == COMPONENT_ERROR,
            r.message@ == error@,
            r.data is None,
    {
        BrpError { code: COMPONENT_ERROR, message: String::from_str(error), data: None }
    }

    /// The server failed; `error` says why.
    pub fn internal(error: &str) -> (r: Self)
        ensures
            r.code == INTERNAL_ERROR,
            r.message@ == error@,
            r.data is None,
    {
        BrpError { code: INTERNAL_ERROR, message: String::from_str(error), data: None }
    }

    /// An entity cannot become its own parent.
    pub fn self_reparent(entity: EntityId) -> (r: Self)
        ensures
            r.code == SELF_REPARENT,
            r.message@ == "Cannot reparent Entity "@ + entity_text(entity) + " to itself"@,
            r.data is None,
    {
        let name = entity.text();
        let message = String::from_str("Cannot reparent Entity ").concat(name.as_str()).concat(
            " to itself",
        );
        BrpError { code: SELF_REPARENT, message, data: None }
    }
}

} // verus!
