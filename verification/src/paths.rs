use vstd::prelude::*;

use crate::types::{Packet, PacketView, clone_bytes};

verus! {

/// Role tag under which the commitment of a sent packet is stored on its
/// source chain.
pub const COMMITMENT_TAG: u8 = 1;

/// Role tag under which the receipt of a received packet is stored on its
/// destination chain.
pub const RECEIPT_TAG: u8 = 2;

/// Role tag under which the acknowledgement of a received packet is stored
/// on its destination chain.
pub const ACK_TAG: u8 = 3;

/// The lifecycle role a storage path is derived for.
#[derive(Clone, Copy, PartialEq, Eq, Structural, Debug)]
pub enum PathRole {
    Commitment,
    Acknowledgement,
    Receipt,
}

/// The big-endian bytes of a 64-bit integer.
pub open spec fn u64_be(n: u64) -> Seq<u8> {
    seq![
        ((n >> 56) & 0xff) as u8,
        ((n >> 48) & 0xff) as u8,
        ((n >> 40) & 0xff) as u8,
        ((n >> 32) & 0xff) as u8,
        ((n >> 24) & 0xff) as u8,
        ((n >> 16) & 0xff) as u8,
        ((n >> 8) & 0xff) as u8,
        (n & 0xff) as u8,
    ]
}

/// Writes a 64-bit integer as its eight big-endian bytes.
pub fn u64_be_bytes(n: u64) -> (r: Vec<u8>)
    ensures
        r@ == u64_be(n),
{
    let mut r: Vec<u8> = Vec::new();
    r.push(((n >> 56) & 0xff) as u8);
    r.push(((n >> 48) & 0xff) as u8);
    r.push(((n >> 40) & 0xff) as u8);
    r.push(((n >> 32) & 0xff) as u8);
    r.push(((n >> 24) & 0xff) as u8);
    r.push(((n >> 16) & 0xff) as u8);
    r.push(((n >> 8) & 0xff) as u8);
    r.push((n & 0xff) as u8);
    proof {
        assert(r@ =~= u64_be(n));
    }
    r
}

/// The canonical storage path of a packet's state for a lifecycle role:
/// the owning client identifier, one role tag byte, then the sequence
/// number in big-endian form. Commitments live under the source client;
/// receipts and acknowledgements under the destination client.
pub open spec fn packet_path_spec(p: PacketView, role: PathRole) -> Seq<u8> {
    match role {
        PathRole::Commitment => p.source_client + seq![COMMITMENT_TAG] + u64_be(p.sequence),
        PathRole::Acknowledgement => p.dest_client + seq![ACK_TAG] + u64_be(p.sequence),
        PathRole::Receipt => p.dest_client + seq![RECEIPT_TAG] + u64_be(p.sequence),
    }
}

/// Appends `src` to `dst`.
pub fn append_bytes(dst: &mut Vec<u8>, src: &Vec<u8>)
    ensures
        final(dst)@ == old(dst)@ + src@,
{
    let ghost dst0 = dst@;
    for i in 0..src.len()
        invariant
            dst@ == dst0 + src@.take(i as int),
    {
        dst.push(src[i]);
        proof {
            assert(dst0 + src@.take(i + 1) =~= (dst0 + src@.take(i as int)).push(src@[i as int]));
        }
    }
    proof {
        assert(src@.take(src@.len() as int) =~= src@);
    }
}

/// Derives the canonical storage path of `p` for `role`. This path must be
/// byte-identical to the one the counterparty light client recomputes when
/// it verifies the attached proof.
pub fn packet_path(p: &Packet, role: PathRole) -> (r: Vec<u8>)
    ensures
        r@ == packet_path_spec(p@, role),
{
    let mut r: Vec<u8> = match role {
        PathRole::Commitment => clone_bytes(&p.source_client),
        PathRole::Acknowledgement => clone_bytes(&p.dest_client),
        PathRole::Receipt => clone_bytes(&p.dest_client),
    };
    match role {
        PathRole::Commitment => r.push(COMMITMENT_TAG),
        PathRole::Acknowledgement => r.push(ACK_TAG),
        PathRole::Receipt => r.push(RECEIPT_TAG),
    };
    let seq_bytes = u64_be_bytes(p.sequence);
    append_bytes(&mut r, &seq_bytes);
    proof {
        assert(r@ =~= packet_path_spec(p@, role));
    }
    r
}

/// The byte string "ibc": the store namespace the Tendermint chain keeps
/// packet state under, prefixed to every path sent to its RPC.
pub open spec fn store_prefix() -> Seq<u8> {
    seq![105u8, 98u8, 99u8]
}

/// Builds the store namespace prefix as bytes.
pub fn store_prefix_bytes() -> (r: Vec<u8>)
    ensures
        r@ == store_prefix(),
{
    let mut r: Vec<u8> = Vec::new();
    r.push(105);
    r.push(98);
    r.push(99);
    proof {
        assert(r@ =~= store_prefix());
    }
    r
}

} // verus!
