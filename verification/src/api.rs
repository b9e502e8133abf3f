//! The `parity` and `internal` namespaces of the JSON-RPC API: which method each
//! call names and with which parameters.
use vstd::prelude::*;
use crate::rpc::{json_string_value, string_value};
use crate::text::{hex_of, push_hex};

verus! {

/// A 256-bit hash, such as a block hash.
#[derive(Debug, Clone, Copy, PartialEq, Eq)]
pub struct H256(pub [u8; 32]);

/// A call of a JSON-RPC method: its name and positional parameters.
#[derive(Debug)]
pub struct Invocation {
    pub method: String,
    pub params: Vec<serde_json::Value>,
}

/// The JSON text of a hash: `0x` and two lowercase hex digits per byte.
pub open spec fn h256_text(hash: H256) -> Seq<char> {
    "0x"@ + hex_of(hash.0@)
}

/// Serialises a hash as its JSON string text, `0x` followed by its 64 hex digits.
pub fn h256_to_hex(hash: &H256) -> (s: String)
    ensures
        s@ == h256_text(*hash),
{
    let mut s = String::from_str("0x");
    push_hex(&mut s, hash.0.as_slice());
    s
}

/// A call of `method` without parameters.
fn no_params(method: &str) -> (i: Invocation)
    ensures
        i.method@ == method@,
        i.params@.len() == 0,
{
    Invocation { method: String::from_str(method), params: Vec::new() }
}

/// `Parity` Specific API
#[derive(Debug, Clone)]
pub struct Parity<T> {
    transport: T,
}

impl<T> Parity<T> {
    /// The namespace on a transport.
    pub fn new(transport: T) -> (p: Self)
        ensures
            p.spec_transport() == transport,
    {
        Parity { transport }
    }

    /// The transport the calls go through.
    pub closed spec fn spec_transport(&self) -> T {
        self.transport
    }

    /// The transport the calls go through.
    pub fn transport(&self) -> (t: &T)
        ensures
            *t == self.spec_transport(),
    {
        &self.transport
    }

    /// Get Parity enode URI
    pub fn enode(&self) -> (i: Invocation)
        ensures
            i.method@ == "parity_enode"@,
            i.params@.len() == 0,
    {
        no_params("parity_enode")
    }

    /// Get the mode, returns one of: "active", "passive", "dark", "offline"
    pub fn mode(&self) -> (i: Invocation)
        ensures
            i.method@ == "parity_mode"@,
            i.params@.len() == 0,
    {
        no_params("parity_mode")
    }

    /// Get the node type availability and capability
    pub fn node_kind(&self) -> (i: Invocation)
        ensures
            i.method@ == "parity_nodeKind"@,
            i.params@.len() == 0,
    {
        no_params("parity_nodeKind")
    }

    /// Get node name, set when starting parity with --identity NAME.
    pub fn node_name(&self) -> (i: Invocation)
        ensures
            i.method@ == "parity_nodeName"@,
            i.params@.len() == 0,
    {
        no_params("parity_nodeName")
    }

    /// Get the hostname and the port of WebSockets/Signer server
    pub fn websocket_url(&self) -> (i: Invocation)
        ensures
            i.method@ == "parity_wsUrl"@,
            i.params@.len() == 0,
    {
        no_params("parity_wsUrl")
    }
}

/// `Internal` Specific API
#[derive(Debug, Clone)]
pub struct Internal<T> {
    transport: T,
}

impl<T> Internal<T> {
    /// The namespace on a transport.
    pub fn new(transport: T) -> (p: Self)
        ensures
            p.spec_transport() == transport,
    {
        Internal { transport }
    }

    /// The transport the calls go through.
    pub closed spec fn spec_transport(&self) -> T {
        self.transport
    }

    /// The transport the calls go through.
    pub fn transport(&self) -> (t: &T)
        ensures
            *t == self.spec_transport(),
    {
        &self.transport
    }

    /// Get BlockDetials by hash
    pub fn block_details_by_hash(&self, hash: H256) -> (i: Invocation)
        ensures
            i.method@ == "internal_getBlockDetailsByHash"@,
            i.params@ == seq![json_string_value(h256_text(hash))],
    {
        let text = h256_to_hex(&hash);
        let mut params = Vec::new();
        params.push(string_value(text));
        Invocation { method: String::from_str("internal_getBlockDetailsByHash"), params }
    }
}

/// The hexadecimal text of some bytes has two digits per byte.
proof fn lemma_hex_len(bytes: Seq<u8>)
    ensures
        hex_of(bytes).len() == 2 * bytes.len(),
    decreases bytes.len(),
{
    if bytes.len() > 0 {
        lemma_hex_len(bytes.drop_last());
    }
}

/// The JSON text of every hash is 66 characters long: `0x` and 64 hex digits.
pub proof fn law_h256_text_length(hash: H256)
    ensures
        h256_text(hash).len() == 66,
        h256_text(hash).take(2) == "0x"@,
{
    reveal_strlit("0x");
    lemma_hex_len(hash.0@);
    assert(h256_text(hash).take(2) =~= "0x"@);
}

} // verus!
