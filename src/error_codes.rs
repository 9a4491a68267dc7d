//! The integer codes that error objects carry.

use vstd::prelude::*;

verus! {

/// The body is not valid JSON.
pub const PARSE_ERROR: i16 = -32700;

/// The request is not a well-formed request object.
pub const INVALID_REQUEST: i16 = -32600;

/// No method of the requested name is registered.
pub const METHOD_NOT_FOUND: i16 = -32601;

/// The parameters do not suit the method.
pub const INVALID_PARAMS: i16 = -32602;

/// The server failed while running the request.
pub const INTERNAL_ERROR: i16 = -32603;

/// The requested entity does not exist.
pub const ENTITY_NOT_FOUND: i16 = -23401;

/// A component could not be read or written.
pub const COMPONENT_ERROR: i16 = -23402;

/// The entity does not hold the requested component.
pub const COMPONENT_NOT_PRESENT: i16 = -23403;

/// An entity cannot become its own parent.
pub const SELF_REPARENT: i16 = -23404;

} // verus!
