//! The request that opens a stream, read from the handshake's query string.

use vstd::prelude::*;

use crate::error_codes::INVALID_REQUEST;
use crate::front::{decodes, fault, is_invalid_request, process_single_request, ItemPlan};
use crate::json::{json_of_bytes, parse_json, Json};
use crate::protocol::{BrpError, BrpPayload, BrpRequest};

verus! {

/// The query string has no `body` parameter.
pub const MISSING_BODY: &'static str = "Missing body";

/// A stream is opened by one request, never by an array of them.
pub const BATCH_UNSUPPORTED: &'static str = "Batch requests are not supported for streaming";

/// What `urlencoding::decode_binary` makes of percent-encoded bytes.
pub uninterp spec fn percent_decoded(b: Seq<u8>) -> Seq<u8>;

/// Relies on `urlencoding::decode_binary`: decodes `%XX` escapes, keeping `+` as it is.
#[verifier::external_body]
fn decode_percent(b: &[u8]) -> (r: Vec<u8>)
    ensures
        r@ == percent_decoded(b@),
{
    urlencoding::decode_binary(b).into_owned()
}

/// The pieces of `s` between the separators `sep`; never empty.
pub open spec fn split(s: Seq<u8>, sep: u8) -> Seq<Seq<u8>>
    decreases s.len(),
{
    if s.len() == 0 {
        seq![Seq::empty()]
    } else {
        let r = split(s.drop_last(), sep);
        if s.last() == sep {
            r.push(Seq::empty())
        } else {
            r.update(r.len() - 1, r.last().push(s.last()))
        }
    }
}

/// The name of the query parameter that holds the request.
pub open spec fn body_key() -> Seq<u8> {
    seq![98u8, 111u8, 100u8, 121u8]
}

/// The value of the last of `pairs` whose name is `key`; a piece without `=`
/// is no pair, and a value ends at its next `=`.
pub open spec fn last_value(pairs: Seq<Seq<u8>>, key: Seq<u8>) -> Option<Seq<u8>>
    decreases pairs.len(),
{
    if pairs.len() == 0 {
        None
    } else {
        let parts = split(pairs.last(), 61u8);
        if parts.len() >= 2 && parts[0] == key {
            Some(parts[1])
        } else {
            last_value(pairs.drop_last(), key)
        }
    }
}

/// The value of parameter `key` in the query string `q`.
pub open spec fn query_value(q: Seq<u8>, key: Seq<u8>) -> Option<Seq<u8>> {
    last_value(split(q, 38u8), key)
}

fn split_bytes(s: &[u8], sep: u8) -> (r: Vec<Vec<u8>>)
    ensures
        r@.map_values(|v: Vec<u8>| v@) == split(s@, sep),
{
    let mut pieces: Vec<Vec<u8>> = Vec::new();
    let mut cur: Vec<u8> = Vec::new();
    let mut i: usize = 0;
    assert(s@.take(0) =~= Seq::<u8>::empty());
    assert(pieces@.map_values(|v: Vec<u8>| v@).push(cur@) =~= split(s@.take(0), sep));
    while i < s.len()
        invariant
            i <= s@.len(),
            pieces@.map_values(|v: Vec<u8>| v@).push(cur@) == split(s@.take(i as int), sep),
        decreases s@.len() - i,
    {
        let b = s[i];
        let ghost prev = split(s@.take(i as int), sep);
        assert(s@.take(i + 1).drop_last() =~= s@.take(i as int));
        if b == sep {
            let done = cur;
            pieces.push(done);
            cur = Vec::new();
            assert(pieces@.map_values(|v: Vec<u8>| v@) =~= prev);
        } else {
            cur.push(b);
            assert(pieces@.map_values(|v: Vec<u8>| v@).push(cur@) =~= prev.update(
                prev.len() - 1,
                prev.last().push(b),
            ));
        }
        i = i + 1;
    }
    assert(s@.take(s@.len() as int) =~= s@);
    pieces.push(cur);
    assert(pieces@.map_values(|v: Vec<u8>| v@) =~= split(s@, sep));
    pieces
}

fn is_body_key(k: &Vec<u8>) -> (r: bool)
    ensures
        r == (k@ == body_key()),
{
    if k.len() != 4 {
        return false;
    }
    let r = k[0] == 98u8 && k[1] == 111u8 && k[2] == 100u8 && k[3] == 121u8;
    assert(r ==> k@ =~= body_key());
    r
}

/// The value of the query parameter `body`, still percent-encoded.
pub fn body_param(q: &[u8]) -> (r: Option<Vec<u8>>)
    ensures
        match r {
            Some(v) => query_value(q@, body_key()) == Some(v@),
            None => query_value(q@, body_key()) is None,
        },
{
    let mut pairs = split_bytes(q, 38u8);
    let ghost all = split(q@, 38u8);
    while pairs.len() > 0
        invariant
            all == split(q@, 38u8),
            last_value(all, body_key()) == last_value(
                pairs@.map_values(|v: Vec<u8>| v@),
                body_key(),
            ),
        decreases pairs.len(),
    {
        let ghost before = pairs@.map_values(|v: Vec<u8>| v@);
        let piece = pairs.pop().unwrap();
        assert(pairs@.map_values(|v: Vec<u8>| v@) =~= before.drop_last());
        let mut parts = split_bytes(piece.as_slice(), 61u8);
        let ghost pv = parts@.map_values(|v: Vec<u8>| v@);
        if parts.len() >= 2 && is_body_key(&parts[0]) {
            assert(pv[0] == parts@[0]@);
            assert(before.last() == piece@);
            let ghost second = parts@[1];
            let value = parts.swap_remove(1);
            assert(value == second && pv[1] == second@);
            return Some(value);
        }
        assert(parts@.len() >= 2 ==> pv[0] == parts@[0]@);
    }
    None
}

/// `r` is the error that reports `msg` as an invalid request.
pub open spec fn fails_with(r: Result<BrpRequest, BrpError>, msg: Seq<char>) -> bool {
    r is Err && is_invalid_request(r->Err_0, msg)
}

fn invalid(msg: String) -> (r: Result<BrpRequest, BrpError>)
    ensures
        fails_with(r, msg@),
{
    Err(BrpError { code: INVALID_REQUEST, message: msg, data: None })
}

/// Reads the one request that opens a stream from the handshake's query
/// string `query`: the percent-decoded JSON of its `body` parameter.
pub fn validate_websocket_request(query: Option<&[u8]>) -> (r: Result<BrpRequest, BrpError>)
    ensures
        match query {
            None => fails_with(r, MISSING_BODY@),
            Some(q) => match query_value(q@, body_key()) {
                None => fails_with(r, MISSING_BODY@),
                Some(raw) => match json_of_bytes(percent_decoded(raw)) {
                    Err(msg) => fails_with(r, msg),
                    Ok(Json::Array(_)) => fails_with(r, BATCH_UNSUPPORTED@),
                    Ok(doc) => match fault(doc) {
                        Some(msg) => fails_with(r, msg),
                        None => r is Ok && decodes(doc, r->Ok_0),
                    },
                },
            },
        },
{
    let q = match query {
        None => {
            return invalid(String::from_str(MISSING_BODY));
        },
        Some(q) => q,
    };
    let raw = match body_param(q) {
        None => {
            return invalid(String::from_str(MISSING_BODY));
        },
        Some(raw) => raw,
    };
    let decoded = decode_percent(raw.as_slice());
    match parse_json(decoded.as_slice()) {
        Err(msg) => invalid(msg),
        Ok(Json::Array(_)) => invalid(String::from_str(BATCH_UNSUPPORTED)),
        Ok(doc) => match process_single_request(doc) {
            ItemPlan::Dispatch(req) => Ok(req),
            ItemPlan::Reply(resp) => match resp.payload {
                BrpPayload::Error(e) => Err(e),
                BrpPayload::Result(_) => {
                    assert(false);
                    invalid(String::from_str(MISSING_BODY))
                },
            },
        },
    }
}

} // verus!
