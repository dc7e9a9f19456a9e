use vstd::prelude::*;

use crate::types::{
    Height, MsgAcknowledgement, MsgAcknowledgementView, MsgRecvPacket, MsgRecvPacketView,
    MsgTimeout, MsgTimeoutView, ack_filled, clone_bytes, clone_bytes_list, dup_packet,
    recv_filled, timeout_filled, views_of,
};

verus! {

/// The byte string "mock": the sentinel every mock proof field is set to.
pub open spec fn mock_proof() -> Seq<u8> {
    seq![109u8, 111u8, 99u8, 107u8]
}

/// Builds the sentinel proof bytes.
pub fn mock_proof_bytes() -> (r: Vec<u8>)
    ensures
        r@ == mock_proof(),
{
    let mut r: Vec<u8> = Vec::new();
    r.push(109);
    r.push(111);
    r.push(99);
    r.push(107);
    proof {
        assert(r@ =~= mock_proof());
    }
    r
}

/// Fills every message of the three batches with the sentinel proof bytes
/// and the zero-value height, without any chain access and without failing,
/// so the rest of the pipeline can run without live connectivity. The same
/// fields are populated as by the real injectors.
pub fn inject_mock_proofs(
    recv_msgs: &Vec<MsgRecvPacket>,
    ack_msgs: &Vec<MsgAcknowledgement>,
    timeout_msgs: &Vec<MsgTimeout>,
) -> (r: (Vec<MsgRecvPacket>, Vec<MsgAcknowledgement>, Vec<MsgTimeout>))
    ensures
        views_of(r.0@) == Seq::new(
            recv_msgs@.len(),
            |i: int| recv_filled(
                views_of(recv_msgs@)[i],
                mock_proof(),
                Height { revision_number: 0, revision_height: 0 },
            ),
        ),
        views_of(r.1@) == Seq::new(
            ack_msgs@.len(),
            |i: int| ack_filled(
                views_of(ack_msgs@)[i],
                mock_proof(),
                Height { revision_number: 0, revision_height: 0 },
            ),
        ),
        views_of(r.2@) == Seq::new(
            timeout_msgs@.len(),
            |i: int| timeout_filled(
                views_of(timeout_msgs@)[i],
                mock_proof(),
                Height { revision_number: 0, revision_height: 0 },
            ),
        ),
{
    let h = Height::zero();
    let ghost recvs = views_of(recv_msgs@);
    let ghost acks = views_of(ack_msgs@);
    let ghost touts = views_of(timeout_msgs@);
    let mut out_recv: Vec<MsgRecvPacket> = Vec::new();
    let mut out_ack: Vec<MsgAcknowledgement> = Vec::new();
    let mut out_tout: Vec<MsgTimeout> = Vec::new();
    #[verifier::loop_isolation(false)]
    for i in 0..recv_msgs.len()
        invariant
            out_recv@.len() == i,
            forall|j: int|
                0 <= j < i ==> #[trigger] out_recv@[j]@ == recv_filled(recvs[j], mock_proof(), h),
    {
        out_recv.push(
            MsgRecvPacket {
                packet: dup_packet(&recv_msgs[i].packet),
                proof_commitment: mock_proof_bytes(),
                proof_height: h,
                signer: clone_bytes(&recv_msgs[i].signer),
            },
        );
    }
    #[verifier::loop_isolation(false)]
    for i in 0..ack_msgs.len()
        invariant
            out_ack@.len() == i,
            forall|j: int|
                0 <= j < i ==> #[trigger] out_ack@[j]@ == ack_filled(acks[j], mock_proof(), h),
    {
        out_ack.push(
            MsgAcknowledgement {
                packet: dup_packet(&ack_msgs[i].packet),
                acknowledgement: clone_bytes_list(&ack_msgs[i].acknowledgement),
                proof_acked: mock_proof_bytes(),
                proof_height: h,
                signer: clone_bytes(&ack_msgs[i].signer),
            },
        );
    }
    #[verifier::loop_isolation(false)]
    for i in 0..timeout_msgs.len()
        invariant
            out_tout@.len() == i,
            forall|j: int|
                0 <= j < i ==> #[trigger] out_tout@[j]@ == timeout_filled(
                    touts[j],
                    mock_proof(),
                    h,
                ),
    {
        out_tout.push(
            MsgTimeout {
                packet: dup_packet(&timeout_msgs[i].packet),
                proof_unreceived: mock_proof_bytes(),
                proof_height: h,
                signer: clone_bytes(&timeout_msgs[i].signer),
            },
        );
    }
    proof {
        assert(views_of(out_recv@) =~= Seq::new(
            recvs.len(),
            |i: int| recv_filled(recvs[i], mock_proof(), h),
        ));
        assert(views_of(out_ack@) =~= Seq::new(
            acks.len(),
            |i: int| ack_filled(acks[i], mock_proof(), h),
        ));
        assert(views_of(out_tout@) =~= Seq::new(
            touts.len(),
            |i: int| timeout_filled(touts[i], mock_proof(), h),
        ));
    }
    (out_recv, out_ack, out_tout)
}

} // verus!
