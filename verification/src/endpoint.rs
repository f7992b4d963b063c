use vstd::prelude::*;

use std::str::FromStr;

verus! {

/// The identity of a peer: the 32 bytes of its ed25519 public key.
#[derive(Debug, Clone, Copy)]
pub struct EndpointId {
    pub bytes: [u8; 32],
}

impl EndpointId {
    /// Wraps the 32 bytes of a public key.
    pub fn from_bytes(bytes: [u8; 32]) -> (id: EndpointId)
        ensures
            id.bytes == bytes,
    {
        EndpointId { bytes }
    }

    /// The 32 bytes of the public key.
    pub fn to_bytes(&self) -> (bytes: [u8; 32])
        ensures
            bytes == self.bytes,
    {
        self.bytes
    }
}

/// Compares two keys byte by byte.
fn same_bytes(a: &[u8; 32], b: &[u8; 32]) -> (r: bool)
    ensures
        r == (*a == *b),
{
    broadcast use vstd::array::group_array_axioms;

    let mut i: usize = 0;
    while i < 32
        invariant
            0 <= i <= 32,
            forall|j: int| 0 <= j < i ==> a[j] == b[j],
        decreases 32 - i,
    {
        if a[i] != b[i] {
            return false;
        }
        i = i + 1;
    }
    assert(*a =~= *b);
    true
}

/// Whether 32 bytes are an ed25519 public key that `iroh` accepts as an
/// endpoint id (the compressed point decompresses).
pub uninterp spec fn endpoint_key_decodes(bytes: [u8; 32]) -> bool;

/// The key bytes of the endpoint id that `iroh` reads from a text (64
/// hexadecimal digits or 52 base32 characters), if it reads one.
pub uninterp spec fn parsed_endpoint_id(text: Seq<char>) -> Option<[u8; 32]>;

/// Calls `iroh::EndpointId::from_bytes`, which keeps the bytes of a key
/// that decodes and fails on bytes that are not a curve point.
#[verifier::external_body]
fn iroh_id_from_bytes(bytes: &[u8; 32]) -> (id: Option<EndpointId>)
    ensures
        id is Some <==> endpoint_key_decodes(*bytes),
        id matches Some(k) ==> k.bytes == *bytes,
{
    iroh::EndpointId::from_bytes(bytes).ok().map(|key| EndpointId { bytes: *key.as_bytes() })
}

/// Calls `iroh::EndpointId::from_str` and keeps the key's bytes.
#[verifier::external_body]
fn iroh_id_from_str(text: &str) -> (id: Option<EndpointId>)
    ensures
        match id {
            Some(k) => parsed_endpoint_id(text@) == Some(k.bytes),
            None => parsed_endpoint_id(text@) is None,
        },
{
    iroh::EndpointId::from_str(text).ok().map(|key| EndpointId { bytes: *key.as_bytes() })
}

impl EndpointId {
    /// The endpoint id whose key is `bytes`, when the bytes are a key.
    pub fn from_key(bytes: &[u8; 32]) -> (id: Option<EndpointId>)
        ensures
            id is Some <==> endpoint_key_decodes(*bytes),
            id matches Some(k) ==> k.bytes == *bytes,
    {
        iroh_id_from_bytes(bytes)
    }

    /// The endpoint id written in an optional query argument: none when the
    /// argument is absent or does not read as an endpoint id.
    pub fn from_argument(arg: &Option<String>) -> (id: Option<EndpointId>)
        ensures
            match arg {
                None => id is None,
                Some(text) => match id {
                    Some(k) => parsed_endpoint_id(text@) == Some(k.bytes),
                    None => parsed_endpoint_id(text@) is None,
                },
            },
    {
        match arg {
            Some(text) => iroh_id_from_str(text.as_str()),
            None => None,
        }
    }
}

impl PartialEq for EndpointId {
    fn eq(&self, other: &EndpointId) -> (r: bool) {
        same_bytes(&self.bytes, &other.bytes)
    }
}

impl Eq for EndpointId {

}

impl vstd::std_specs::cmp::PartialEqSpecImpl for EndpointId {
    open spec fn obeys_eq_spec() -> bool {
        true
    }

    open spec fn eq_spec(&self, other: &EndpointId) -> bool {
        self.bytes == other.bytes
    }
}

} // verus!
