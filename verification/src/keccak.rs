use vstd::prelude::*;

use crate::paths::append_bytes;

verus! {

/// The Keccak-256 digest of a byte string. Stated only through the trusted
/// wrapper below; the contracts never say what the digest is on given bytes.
pub uninterp spec fn keccak_of(input: Seq<u8>) -> Seq<u8>;

/// Relies on `alloy::primitives::keccak256`: the 32-byte Keccak-256 digest
/// of the input, a function of the input bytes alone.
#[verifier::external_body]
fn keccak256_bytes(input: &Vec<u8>) -> (r: Vec<u8>)
    ensures
        r@ == keccak_of(input@),
        r@.len() == 32,
{
    alloy::primitives::keccak256(input.as_slice()).as_slice().to_vec()
}

/// The storage slot key under which an Ethereum-style chain keeps the value
/// of a commitment path: the digest of the path's digest followed by the
/// 32-byte base slot of the commitment mapping.
pub open spec fn storage_key_spec(path: Seq<u8>, base_slot: Seq<u8>) -> Seq<u8> {
    keccak_of(keccak_of(path) + base_slot)
}

/// Computes the storage slot key for a commitment path, given the 32-byte
/// base slot the contract keeps its commitment mapping at.
pub fn eth_storage_key(path: &Vec<u8>, base_slot: &Vec<u8>) -> (r: Vec<u8>)
    requires
        base_slot@.len() == 32,
    ensures
        r@ == storage_key_spec(path@, base_slot@),
        r@.len() == 32,
{
    let mut buf = keccak256_bytes(path);
    append_bytes(&mut buf, base_slot);
    keccak256_bytes(&buf)
}

} // verus!
