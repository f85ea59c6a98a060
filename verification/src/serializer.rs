//! Payload serialization. The wire protocol carries payloads as opaque
//! bytes; content type 1 interprets them as JSON, through serde_json.

use vstd::prelude::*;

use crate::RpcError;

verus! {

#[verifier::external_type_specification]
#[verifier::external_body]
pub struct ExJsonValue(serde_json::Value);

/// Whether `serde_json::from_slice` parses these bytes as one JSON value.
/// Parsing is a function of the bytes alone.
pub uninterp spec fn json_wf(b: Seq<u8>) -> bool;

/// Whether `serde_json::from_slice` parses these bytes as one JSON value
/// whose top level is an array. Parsing is a function of the bytes alone.
pub uninterp spec fn json_array_wf(b: Seq<u8>) -> bool;

/// The JSON text `serde_json::to_vec` renders for a value; serialization
/// is a function of the value alone.
pub uninterp spec fn json_text_of(v: serde_json::Value) -> Seq<u8>;

/// The JSON text `serde_json::to_vec` renders for the array value holding
/// these items, in this order.
pub uninterp spec fn json_array_text_of(items: Seq<serde_json::Value>) -> Seq<u8>;

/// Relies on serde_json::from_slice::<Value>: it parses the whole slice as
/// one JSON value or fails, depending on the bytes alone.
#[verifier::external_body]
fn json_from_slice(b: &[u8]) -> (r: Option<serde_json::Value>)
    ensures
        r is Some <==> json_wf(b@),
{
    serde_json::from_slice(b).ok()
}

/// Relies on serde_json::from_slice::<Value>: it parses the whole slice as
/// one JSON value or fails, depending on the bytes alone; the match below
/// only tells the array variant apart and moves its elements out.
#[verifier::external_body]
fn json_array_from_slice(b: &[u8]) -> (r: Option<Vec<serde_json::Value>>)
    ensures
        r is Some <==> json_array_wf(b@),
{
    match serde_json::from_slice::<serde_json::Value>(b) {
        Ok(serde_json::Value::Array(a)) => Some(a),
        _ => None,
    }
}

/// Relies on serde_json::to_vec: serializing a `Value` cannot fail — the
/// writer is a `Vec`, so no I/O error; `Value` map keys are `String`s, so
/// the non-string-key error is unreachable; a non-finite number renders as
/// `null` rather than erroring — and its output depends on the value
/// alone. Whether that output parses back is not claimed: the parser
/// enforces a recursion limit that serialization does not.
#[verifier::external_body]
fn json_to_vec(v: &serde_json::Value) -> (r: Vec<u8>)
    ensures
        r@ == json_text_of(*v),
{
    serde_json::to_vec(v).expect("serializing a JSON value cannot fail")
}

/// Relies on serde_json::to_vec, as above; wrapping the items as a
/// `Value::Array` first only moves them.
#[verifier::external_body]
fn json_array_to_vec(items: Vec<serde_json::Value>) -> (r: Vec<u8>)
    ensures
        r@ == json_array_text_of(items@),
{
    serde_json::to_vec(&serde_json::Value::Array(items))
        .expect("serializing a JSON value cannot fail")
}

/// The JSON payload serializer: the default implementation behind content
/// type 1.
#[derive(Debug, Copy, Clone)]
pub struct JsonSerializer;

impl JsonSerializer {
    /// Renders one JSON value to exactly its JSON text; serializing a JSON
    /// value never fails.
    pub fn serialize(&self, t: &serde_json::Value) -> (r: Result<Vec<u8>, RpcError>)
        ensures
            r is Ok,
            r matches Ok(b) ==> b@ == json_text_of(*t),
    {
        Ok(json_to_vec(t))
    }

    /// Renders a list of JSON values as exactly the JSON text of the array
    /// holding them; this serialization never fails.
    pub fn serialize_args(&self, args: Vec<serde_json::Value>) -> (r: Vec<u8>)
        ensures
            r@ == json_array_text_of(args@),
    {
        json_array_to_vec(args)
    }

    /// Parses bytes as one JSON value; fails exactly when the bytes are not
    /// well-formed JSON.
    pub fn deserialize(&self, f: &[u8]) -> (r: Result<serde_json::Value, RpcError>)
        ensures
            r is Ok <==> json_wf(f@),
            r matches Err(e) ==> e == RpcError::Decode,
    {
        match json_from_slice(f) {
            Some(v) => Ok(v),
            None => Err(RpcError::Decode),
        }
    }

    /// Parses bytes as a JSON array and hands out its elements; fails
    /// exactly when the bytes are not a well-formed JSON array, as request
    /// arguments must be.
    pub fn deserialize_vec(&self, f: &[u8]) -> (r: Result<Vec<serde_json::Value>, RpcError>)
        ensures
            r is Ok <==> json_array_wf(f@),
            r matches Err(e) ==> e == RpcError::Decode,
    {
        match json_array_from_slice(f) {
            Some(v) => Ok(v),
            None => Err(RpcError::Decode),
        }
    }
}

} // verus!
