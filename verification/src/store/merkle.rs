use vstd::prelude::*;

use rs_merkle::algorithms::Sha256;
use rs_merkle::MerkleTree;

verus! {

/// The lowercase hexadecimal digit for a value below 16.
pub open spec fn hex_digit(n: int) -> char {
    if n < 10 {
        (48 + n) as char
    } else {
        (87 + n) as char
    }
}

/// Two lowercase hexadecimal digits per byte, high digit first.
pub open spec fn hex_encode(bytes: Seq<u8>) -> Seq<char>
    decreases bytes.len(),
{
    if bytes.len() == 0 {
        Seq::empty()
    } else {
        seq![hex_digit(bytes[0] as int / 16), hex_digit(bytes[0] as int % 16)] + hex_encode(bytes.drop_first())
    }
}

/// The root of the SHA-256 Merkle tree that `rs_merkle` builds over `leaves`.
pub uninterp spec fn merkle_root(leaves: Seq<[u8; 32]>) -> [u8; 32];

/// Calls `rs_merkle::MerkleTree::<Sha256>::from_leaves` and then `root_hex`.
/// The tree of no leaves has no root; otherwise the result is the lowercase
/// hexadecimal form (`to_hex_string`, two digits per byte) of the tree's root,
/// which is named `merkle_root` and not computed here.
#[verifier::external_body]
pub(crate) fn merkle_root_hex(leaves: &Vec<[u8; 32]>) -> (r: Option<String>)
    ensures
        r is Some <==> leaves@.len() > 0,
        r matches Some(s) ==> s@ == hex_encode(merkle_root(leaves@)@),
{
    MerkleTree::<Sha256>::from_leaves(leaves.as_slice()).root_hex()
}

} // verus!
