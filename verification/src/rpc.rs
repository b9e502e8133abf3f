//! The JSON-RPC data that the transports send and receive.
//!
//! JSON values themselves stay `serde_json` values; everything the transports
//! decide on (ids, the shape of a response, the parameters of a notification)
//! is held in the plain types of this module.
use vstd::prelude::*;
use crate::error::Error;
use jsonrpc_core::{Id, Output};

verus! {

/// A JSON value, carried through unchanged.
#[verifier::external_type_specification]
#[verifier::external_body]
pub struct ExJsonValue(serde_json::Value);

/// Identifier of a request, as the transports number them.
pub type RequestId = usize;

/// The correlation id of a JSON-RPC output.
#[derive(Debug)]
pub enum RpcId {
    Null,
    Num(u64),
    Str(String),
}

/// The error object of a failed JSON-RPC call.
#[derive(Debug)]
pub struct RpcError {
    pub code: i64,
    pub message: String,
    pub data: Option<serde_json::Value>,
}

/// One output of a JSON-RPC response: its id and its outcome.
#[derive(Debug)]
pub struct RpcOutput {
    pub id: RpcId,
    pub result: Result<serde_json::Value, RpcError>,
}

/// A JSON-RPC response: a single output, or the outputs of a batch.
#[derive(Debug)]
pub enum RpcResponse {
    Single(RpcOutput),
    Batch(Vec<RpcOutput>),
}

/// The value of an entry of a parameter map: a JSON string, read out, or any
/// other JSON value.
#[derive(Debug)]
pub enum EntryValue {
    Str(String),
    Other(serde_json::Value),
}

/// The parameters of a JSON-RPC notification; a map keeps its entries in key order.
#[derive(Debug)]
pub enum RpcParams {
    Absent,
    Array(Vec<serde_json::Value>),
    Object(Vec<(String, EntryValue)>),
}

/// A JSON-RPC notification sent by the server.
#[derive(Debug)]
pub struct RpcNotification {
    pub method: String,
    pub params: RpcParams,
}

/// The protocol version written into a call.
#[derive(Debug, Clone, Copy, PartialEq, Eq, Structural)]
pub enum Version {
    V2,
}

/// A JSON-RPC method call with positional parameters and a numeric id.
#[derive(Debug)]
pub struct Call {
    pub jsonrpc: Option<Version>,
    pub method: String,
    pub params: Vec<serde_json::Value>,
    pub id: u64,
}

/// A request: one call, or a batch of calls.
#[derive(Debug)]
pub enum Request {
    Single(Call),
    Batch(Vec<Call>),
}

/// What `serde_json::from_slice::<jsonrpc_core::Response>` makes of some bytes:
/// the response, or the debug text of the parse error.
pub uninterp spec fn json_rpc_response(bytes: Seq<u8>) -> Result<RpcResponse, Seq<char>>;

/// What `serde_json::from_slice::<jsonrpc_core::Notification>` makes of some bytes.
pub uninterp spec fn json_rpc_notification(bytes: Seq<u8>) -> Option<RpcNotification>;

/// The text that `serde_json::to_string` writes for a request.
pub uninterp spec fn json_text_of_request(request: Request) -> Seq<char>;

/// The JSON string value holding some text.
pub uninterp spec fn json_string_value(text: Seq<char>) -> serde_json::Value;

/// Whether a parse result equals a named parse result, comparing error texts by view.
pub open spec fn same_parse<T>(r: Result<T, String>, named: Result<T, Seq<char>>) -> bool {
    match (r, named) {
        (Ok(a), Ok(b)) => a == b,
        (Err(a), Err(b)) => a@ == b,
        _ => false,
    }
}

/// Parses bytes as a JSON-RPC response with `serde_json::from_slice` into
/// `jsonrpc_core::Response`, and converts it: each output's id through
/// `Output::id`, its outcome through `jsonrpc_core`'s `From<Output>` for `Result`,
/// an error object keeping its numeric code (`ErrorCode::code`), message and data.
/// A parse error becomes its debug text. The contract claims that the result is a
/// function of the bytes alone.
#[verifier::external_body]
pub(crate) fn parse_response(bytes: &[u8]) -> (r: Result<RpcResponse, String>)
    ensures
        same_parse(r, json_rpc_response(bytes@)),
{
    let out = |o: Output| RpcOutput {
        id: match o.id() {
            Id::Null => RpcId::Null,
            Id::Num(n) => RpcId::Num(*n),
            Id::Str(s) => RpcId::Str(s.clone()),
        },
        result: Result::from(o).map_err(|e: jsonrpc_core::Error|
            RpcError { code: e.code.code(), message: e.message, data: e.data }),
    };
    match serde_json::from_slice::<jsonrpc_core::Response>(bytes) {
        Ok(jsonrpc_core::Response::Single(o)) => Ok(RpcResponse::Single(out(o))),
        Ok(jsonrpc_core::Response::Batch(v)) => Ok(RpcResponse::Batch(v.into_iter().map(out).collect())),
        Err(e) => Err(format!("{:?}", e)),
    }
}

/// Parses bytes as a JSON-RPC notification with `serde_json::from_slice` into
/// `jsonrpc_core::Notification`, keeping its method and its parameters; the
/// entries of a parameter map come in the map's order, a `Value::String` entry
/// with its string read out. The contract claims that the result is a function
/// of the bytes alone.
#[verifier::external_body]
pub(crate) fn parse_notification(bytes: &[u8]) -> (r: Option<RpcNotification>)
    ensures
        r == json_rpc_notification(bytes@),
{
    match serde_json::from_slice::<jsonrpc_core::Notification>(bytes) {
        Ok(n) => Some(RpcNotification {
            method: n.method,
            params: match n.params {
                jsonrpc_core::Params::None => RpcParams::Absent,
                jsonrpc_core::Params::Array(v) => RpcParams::Array(v),
                jsonrpc_core::Params::Map(m) => RpcParams::Object(m.into_iter().map(|(k, v)| match v {
                    serde_json::Value::String(s) => (k, EntryValue::Str(s)),
                    v => (k, EntryValue::Other(v)),
                }).collect()),
            },
        }),
        Err(_) => None,
    }
}

/// Writes a request as JSON text with `serde_json::to_string`, after turning each
/// call into a `jsonrpc_core::MethodCall` with array parameters and a numeric id.
/// Serialising JSON values cannot fail (their map keys are strings), so the
/// `unwrap` does not panic. The contract claims that the text is a function of
/// the request alone.
#[verifier::external_body]
pub(crate) fn request_to_json(request: &Request) -> (s: String)
    ensures
        s@ == json_text_of_request(*request),
{
    let call = |c: &Call| jsonrpc_core::Call::MethodCall(jsonrpc_core::MethodCall {
        jsonrpc: c.jsonrpc.map(|_| jsonrpc_core::Version::V2),
        method: c.method.clone(),
        params: jsonrpc_core::Params::Array(c.params.clone()),
        id: jsonrpc_core::Id::Num(c.id),
    });
    let request = match request {
        Request::Single(c) => jsonrpc_core::Request::Single(call(c)),
        Request::Batch(cs) => jsonrpc_core::Request::Batch(cs.iter().map(call).collect()),
    };
    serde_json::to_string(&request).unwrap()
}

/// Makes the JSON string value `serde_json::Value::String` of some text. The
/// contract claims that the value is a function of the text alone.
#[verifier::external_body]
pub(crate) fn string_value(text: String) -> (v: serde_json::Value)
    ensures
        v == json_string_value(text@),
{
    serde_json::Value::String(text)
}

/// The JSON value of a map entry.
pub open spec fn entry_json(e: EntryValue) -> serde_json::Value {
    match e {
        EntryValue::Str(s) => json_string_value(s@),
        EntryValue::Other(v) => v,
    }
}

/// Turns the value of a map entry back into a JSON value.
pub fn entry_to_json(e: EntryValue) -> (v: serde_json::Value)
    ensures
        v == entry_json(e),
{
    match e {
        EntryValue::Str(s) => string_value(s),
        EntryValue::Other(v) => v,
    }
}

/// Builds a JSON-RPC 2.0 method call with positional parameters.
pub fn build_request(id: RequestId, method: &str, params: Vec<serde_json::Value>) -> (c: Call)
    ensures
        c.jsonrpc == Some(Version::V2),
        c.method@ == method@,
        c.params == params,
        c.id == id as u64,
{
    Call { jsonrpc: Some(Version::V2), method: String::from_str(method), params, id: id as u64 }
}

/// The outcome of one output: its value, or the server's error.
pub open spec fn output_result(o: RpcOutput) -> Result<serde_json::Value, Error> {
    match o.result {
        Ok(v) => Ok(v),
        Err(e) => Err(Error::Rpc(e)),
    }
}

/// Turns one output into its outcome.
pub fn to_result_from_output(output: RpcOutput) -> (r: Result<serde_json::Value, Error>)
    ensures
        r == output_result(output),
{
    match output.result {
        Ok(v) => Ok(v),
        Err(e) => Err(Error::Rpc(e)),
    }
}

/// Turns the outputs of a response into their outcomes, in order.
pub fn to_results_from_outputs(outputs: Vec<RpcOutput>) -> (r: Vec<Result<serde_json::Value, Error>>)
    ensures
        r@ == outputs@.map_values(|o: RpcOutput| output_result(o)),
{
    let ghost all = outputs@;
    let mut r: Vec<Result<serde_json::Value, Error>> = Vec::new();
    for o in it: outputs
        invariant
            it.seq() == all,
            r@.len() == it.index(),
            forall|i: int| 0 <= i < it.index() ==> #[trigger] r@[i] == output_result(all[i]),
    {
        r.push(to_result_from_output(o));
    }
    assert(r@ =~= all.map_values(|o: RpcOutput| output_result(o)));
    r
}

} // verus!
