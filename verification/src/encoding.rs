use vstd::prelude::*;

use crate::paths::{append_bytes, u64_be, u64_be_bytes};

verus! {

/// One storage-proof entry as an execution JSON-RPC endpoint reports it:
/// the proven slot key, the claimed value in big-endian bytes, and the
/// ordered Merkle-Patricia proof nodes.
#[derive(Debug)]
pub struct StorageProofEntry {
    pub key: Vec<u8>,
    pub value: Vec<u8>,
    pub proof_nodes: Vec<Vec<u8>>,
}

/// The mathematical value of a [`StorageProofEntry`].
pub ghost struct StorageProofEntryView {
    pub key: Seq<u8>,
    pub value: Seq<u8>,
    pub proof_nodes: Seq<Seq<u8>>,
}

impl View for StorageProofEntry {
    type V = StorageProofEntryView;

    open spec fn view(&self) -> StorageProofEntryView {
        StorageProofEntryView {
            key: self.key@,
            value: self.value@,
            proof_nodes: self.proof_nodes.deep_view(),
        }
    }
}

/// Whether a claimed storage value denotes absence: every byte zero, the
/// empty string included. Membership is asserted by a non-zero value.
pub open spec fn is_zero_value(v: Seq<u8>) -> bool {
    forall|i: int| 0 <= i < v.len() ==> v[i] == 0
}

/// Decides whether a claimed storage value denotes absence.
pub fn value_is_zero(v: &Vec<u8>) -> (r: bool)
    ensures
        r == is_zero_value(v@),
{
    for i in 0..v.len()
        invariant
            forall|j: int| 0 <= j < i ==> v@[j] == 0,
    {
        if v[i] != 0 {
            return false;
        }
    }
    true
}

/// A byte string framed by its length in big-endian form.
pub open spec fn enc_bytes(b: Seq<u8>) -> Seq<u8> {
    u64_be(b.len() as u64) + b
}

/// The concatenated frames of a list of byte strings.
pub open spec fn enc_node_list(nodes: Seq<Seq<u8>>) -> Seq<u8>
    decreases nodes.len(),
{
    if nodes.len() == 0 {
        Seq::empty()
    } else {
        enc_node_list(nodes.drop_last()) + enc_bytes(nodes.last())
    }
}

/// The deterministic serialization of a storage-proof entry carried in a
/// message's proof field: the framed key, the framed value, the node count
/// in big-endian form, then each proof node framed, in order.
pub open spec fn storage_proof_encoding(e: StorageProofEntryView) -> Seq<u8> {
    enc_bytes(e.key) + enc_bytes(e.value) + u64_be(e.proof_nodes.len() as u64) + enc_node_list(
        e.proof_nodes,
    )
}

/// Appends a length-framed byte string to `out`.
fn push_framed(out: &mut Vec<u8>, b: &Vec<u8>)
    ensures
        final(out)@ == old(out)@ + enc_bytes(b@),
{
    let len_bytes = u64_be_bytes(b.len() as u64);
    append_bytes(out, &len_bytes);
    append_bytes(out, b);
    proof {
        assert(out@ =~= old(out)@ + enc_bytes(b@));
    }
}

/// Serializes a storage-proof entry into the byte form carried in a
/// message's proof field.
pub fn encode_storage_proof(e: &StorageProofEntry) -> (r: Vec<u8>)
    ensures
        r@ == storage_proof_encoding(e@),
{
    let mut r: Vec<u8> = Vec::new();
    push_framed(&mut r, &e.key);
    push_framed(&mut r, &e.value);
    let count_bytes = u64_be_bytes(e.proof_nodes.len() as u64);
    append_bytes(&mut r, &count_bytes);
    let ghost head = r@;
    #[verifier::loop_isolation(false)]
    for i in 0..e.proof_nodes.len()
        invariant
            r@ == head + enc_node_list(e@.proof_nodes.take(i as int)),
    {
        push_framed(&mut r, &e.proof_nodes[i]);
        proof {
            assert(e@.proof_nodes.take(i + 1).drop_last() =~= e@.proof_nodes.take(i as int));
            assert(e@.proof_nodes.take(i + 1).last() == e@.proof_nodes[i as int]);
            assert(e@.proof_nodes[i as int] == e.proof_nodes@[i as int]@);
            assert(r@ =~= head + enc_node_list(e@.proof_nodes.take(i + 1)));
        }
    }
    proof {
        assert(e@.proof_nodes.take(e@.proof_nodes.len() as int) =~= e@.proof_nodes);
        assert(r@ =~= storage_proof_encoding(e@));
    }
    r
}

} // verus!
