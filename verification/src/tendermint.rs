use vstd::prelude::*;

use crate::types::{
    Height, MsgAcknowledgement, MsgAcknowledgementView, MsgRecvPacket, MsgRecvPacketView,
    MsgTimeout, MsgTimeoutView, ack_filled, clone_bytes, clone_bytes_list, dup_packet,
    lemma_add_push, lemma_map_values_push, recv_filled, result_views, timeout_filled, views_of,
};
use crate::paths::{PathRole, packet_path, packet_path_spec, store_prefix, store_prefix_bytes};
use crate::policy::{
    ProofError, all_ok, check_membership, first_err_from, lemma_first_err_is, membership_policy,
};

verus! {

/// One Merkle proof query to run against the Tendermint chain's RPC: the
/// path segments (store namespace, then the packet's storage path) and the
/// revision height to prove at.
#[derive(Debug)]
pub struct TmProofRequest {
    pub path: Vec<Vec<u8>>,
    pub height: u64,
}

/// The mathematical value of a [`TmProofRequest`].
pub ghost struct TmProofRequestView {
    pub path: Seq<Seq<u8>>,
    pub height: u64,
}

impl View for TmProofRequest {
    type V = TmProofRequestView;

    open spec fn view(&self) -> TmProofRequestView {
        TmProofRequestView { path: self.path.deep_view(), height: self.height }
    }
}

/// What one Merkle proof fetch produced: the value stored under the path
/// (empty denotes non-membership) and the encoded proof, or the endpoint
/// was unreachable.
#[derive(Debug)]
pub enum TmFetchOutcome {
    Fetched { value: Vec<u8>, proof_bytes: Vec<u8> },
    Unavailable,
}

/// The mathematical value of a [`TmFetchOutcome`].
pub ghost enum TmFetchOutcomeView {
    Fetched { value: Seq<u8>, proof_bytes: Seq<u8> },
    Unavailable,
}

impl View for TmFetchOutcome {
    type V = TmFetchOutcomeView;

    open spec fn view(&self) -> TmFetchOutcomeView {
        match self {
            TmFetchOutcome::Fetched { value, proof_bytes } => (TmFetchOutcomeView::Fetched {
                value: value@,
                proof_bytes: proof_bytes@,
            }),
            TmFetchOutcome::Unavailable => TmFetchOutcomeView::Unavailable,
        }
    }
}

/// The query for one storage path at one revision height.
pub open spec fn tm_request_of(path: Seq<u8>, height: u64) -> TmProofRequestView {
    TmProofRequestView { path: seq![store_prefix(), path], height }
}

/// The query builder for receive messages, as a function value.
pub open spec fn tm_recv_request(h: u64) -> spec_fn(MsgRecvPacketView) -> TmProofRequestView {
    |m: MsgRecvPacketView| tm_request_of(packet_path_spec(m.packet, PathRole::Commitment), h)
}

/// The query builder for acknowledgement messages, as a function value.
pub open spec fn tm_ack_request(h: u64) -> spec_fn(MsgAcknowledgementView) -> TmProofRequestView {
    |m: MsgAcknowledgementView| tm_request_of(
        packet_path_spec(m.packet, PathRole::Acknowledgement),
        h,
    )
}

/// The query builder for timeout messages, as a function value.
pub open spec fn tm_timeout_request(h: u64) -> spec_fn(MsgTimeoutView) -> TmProofRequestView {
    |m: MsgTimeoutView| tm_request_of(packet_path_spec(m.packet, PathRole::Receipt), h)
}

/// The queries a Tendermint injection call must run: one per message, in
/// batch order (receive, acknowledgement, timeout), commitment paths for
/// receive messages, acknowledgement paths for acknowledgement messages,
/// receipt paths for timeout messages, all at the target revision height.
pub open spec fn tm_requests_spec(
    recvs: Seq<MsgRecvPacketView>,
    acks: Seq<MsgAcknowledgementView>,
    touts: Seq<MsgTimeoutView>,
    h: u64,
) -> Seq<TmProofRequestView> {
    recvs.map_values(tm_recv_request(h)) + acks.map_values(tm_ack_request(h)) + touts.map_values(
        tm_timeout_request(h),
    )
}

/// Builds the Merkle proof queries for the three message batches.
pub fn tendermint_proof_requests(
    recv_msgs: &Vec<MsgRecvPacket>,
    ack_msgs: &Vec<MsgAcknowledgement>,
    timeout_msgs: &Vec<MsgTimeout>,
    target_height: &Height,
) -> (r: Vec<TmProofRequest>)
    ensures
        views_of(r@) == tm_requests_spec(
            views_of(recv_msgs@),
            views_of(ack_msgs@),
            views_of(timeout_msgs@),
            target_height.revision_height,
        ),
{
    let h = target_height.revision_height;
    let ghost recvs = views_of(recv_msgs@);
    let ghost acks = views_of(ack_msgs@);
    let ghost touts = views_of(timeout_msgs@);
    let mut r: Vec<TmProofRequest> = Vec::new();
    #[verifier::loop_isolation(false)]
    for i in 0..recv_msgs.len()
        invariant
            views_of(r@) == recvs.take(i as int).map_values(tm_recv_request(h)),
    {
        let path = packet_path(&recv_msgs[i].packet, PathRole::Commitment);
        let mut segs: Vec<Vec<u8>> = Vec::new();
        segs.push(store_prefix_bytes());
        segs.push(path);
        r.push(TmProofRequest { path: segs, height: h });
        proof {
            lemma_map_values_push(recvs.take(i as int), recvs[i as int], tm_recv_request(h));
            assert(recvs.take(i + 1) =~= recvs.take(i as int).push(recvs[i as int]));
            assert(recvs[i as int] == recv_msgs@[i as int]@);
            assert(segs.deep_view() =~~= seq![
                store_prefix(),
                packet_path_spec(recv_msgs@[i as int]@.packet, PathRole::Commitment),
            ]);
            assert(views_of(r@) =~= recvs.take(i + 1).map_values(tm_recv_request(h)));
        }
    }
    proof {
        assert(recvs.take(recvs.len() as int) =~= recvs);
    }
    #[verifier::loop_isolation(false)]
    for i in 0..ack_msgs.len()
        invariant
            views_of(r@) == recvs.map_values(tm_recv_request(h)) + acks.take(i as int).map_values(
                tm_ack_request(h),
            ),
    {
        let path = packet_path(&ack_msgs[i].packet, PathRole::Acknowledgement);
        let mut segs: Vec<Vec<u8>> = Vec::new();
        segs.push(store_prefix_bytes());
        segs.push(path);
        r.push(TmProofRequest { path: segs, height: h });
        proof {
            lemma_map_values_push(acks.take(i as int), acks[i as int], tm_ack_request(h));
            lemma_add_push(
                recvs.map_values(tm_recv_request(h)),
                acks.take(i as int).map_values(tm_ack_request(h)),
                tm_ack_request(h)(acks[i as int]),
            );
            assert(acks.take(i + 1) =~= acks.take(i as int).push(acks[i as int]));
            assert(acks[i as int] == ack_msgs@[i as int]@);
            assert(segs.deep_view() =~~= seq![
                store_prefix(),
                packet_path_spec(ack_msgs@[i as int]@.packet, PathRole::Acknowledgement),
            ]);
            assert(views_of(r@) =~= recvs.map_values(tm_recv_request(h)) + acks.take(
                i + 1,
            ).map_values(tm_ack_request(h)));
        }
    }
    proof {
        assert(acks.take(acks.len() as int) =~= acks);
    }
    #[verifier::loop_isolation(false)]
    for i in 0..timeout_msgs.len()
        invariant
            views_of(r@) == recvs.map_values(tm_recv_request(h)) + acks.map_values(
                tm_ack_request(h),
            ) + touts.take(i as int).map_values(tm_timeout_request(h)),
    {
        let path = packet_path(&timeout_msgs[i].packet, PathRole::Receipt);
        let mut segs: Vec<Vec<u8>> = Vec::new();
        segs.push(store_prefix_bytes());
        segs.push(path);
        r.push(TmProofRequest { path: segs, height: h });
        proof {
            lemma_map_values_push(touts.take(i as int), touts[i as int], tm_timeout_request(h));
            lemma_add_push(
                recvs.map_values(tm_recv_request(h)) + acks.map_values(tm_ack_request(h)),
                touts.take(i as int).map_values(tm_timeout_request(h)),
                tm_timeout_request(h)(touts[i as int]),
            );
            assert(touts.take(i + 1) =~= touts.take(i as int).push(touts[i as int]));
            assert(touts[i as int] == timeout_msgs@[i as int]@);
            assert(segs.deep_view() =~~= seq![
                store_prefix(),
                packet_path_spec(timeout_msgs@[i as int]@.packet, PathRole::Receipt),
            ]);
            assert(views_of(r@) =~= recvs.map_values(tm_recv_request(h)) + acks.map_values(
                tm_ack_request(h),
            ) + touts.take(i + 1).map_values(tm_timeout_request(h)));
        }
    }
    proof {
        assert(touts.take(touts.len() as int) =~= touts);
    }
    r
}

/// The check one fetched outcome must pass: reachability, then the
/// membership policy on the fetched value.
pub open spec fn tm_outcome_err(expect_membership: bool, o: TmFetchOutcomeView) -> Option<
    ProofError,
> {
    match o {
        TmFetchOutcomeView::Unavailable => Some(ProofError::UpstreamUnavailable),
        TmFetchOutcomeView::Fetched { value, proof_bytes: _ } => membership_policy(
            expect_membership,
            value.len() == 0,
        ),
    }
}

/// The per-message checks of a Tendermint injection call: membership is
/// expected for the first `n_membership` fetches (receive and
/// acknowledgement messages), non-membership for the rest (timeouts).
pub open spec fn tm_errs(results: Seq<TmFetchOutcomeView>, n_membership: int) -> Seq<
    Option<ProofError>,
> {
    Seq::new(results.len(), |i: int| tm_outcome_err(i < n_membership, results[i]))
}

/// The encoded proof bytes of a successful fetch.
pub open spec fn tm_proof_of(o: TmFetchOutcomeView) -> Seq<u8> {
    match o {
        TmFetchOutcomeView::Fetched { value: _, proof_bytes } => proof_bytes,
        TmFetchOutcomeView::Unavailable => arbitrary(),
    }
}

/// What a Tendermint injection call returns: if every fetch succeeded under
/// the membership policy, the three batches with each message's proof bytes
/// and proof height filled from its own fetch; otherwise the first failing
/// check's error, in batch-then-index order.
pub open spec fn tm_inject_spec(
    recvs: Seq<MsgRecvPacketView>,
    acks: Seq<MsgAcknowledgementView>,
    touts: Seq<MsgTimeoutView>,
    results: Seq<TmFetchOutcomeView>,
    h: Height,
) -> Result<(Seq<MsgRecvPacketView>, Seq<MsgAcknowledgementView>, Seq<MsgTimeoutView>), ProofError> {
    let nr = recvs.len() as int;
    let na = acks.len() as int;
    let errs = tm_errs(results, nr + na);
    if all_ok(errs) {
        Ok(
            (
                Seq::new(recvs.len(), |i: int| recv_filled(recvs[i], tm_proof_of(results[i]), h)),
                Seq::new(acks.len(), |i: int| ack_filled(acks[i], tm_proof_of(results[nr + i]), h)),
                Seq::new(
                    touts.len(),
                    |i: int| timeout_filled(touts[i], tm_proof_of(results[nr + na + i]), h),
                ),
            ),
        )
    } else {
        Err(first_err_from(errs, 0))
    }
}

/// Fills the three batches from the fetched Merkle proofs, all-or-nothing:
/// on success every message carries its own proof bytes and the target
/// height; on the first failing check nothing is returned and the caller
/// must rebuild and retry the whole set. `results` holds one outcome per
/// message, in the order of [`tendermint_proof_requests`].
pub fn inject_tendermint_proofs(
    recv_msgs: &Vec<MsgRecvPacket>,
    ack_msgs: &Vec<MsgAcknowledgement>,
    timeout_msgs: &Vec<MsgTimeout>,
    results: &Vec<TmFetchOutcome>,
    target_height: &Height,
) -> (r: Result<(Vec<MsgRecvPacket>, Vec<MsgAcknowledgement>, Vec<MsgTimeout>), ProofError>)
    requires
        results@.len() == recv_msgs@.len() + ack_msgs@.len() + timeout_msgs@.len(),
    ensures
        result_views(r) == tm_inject_spec(
            views_of(recv_msgs@),
            views_of(ack_msgs@),
            views_of(timeout_msgs@),
            views_of(results@),
            *target_height,
        ),
{
    let nr = recv_msgs.len();
    let na = ack_msgs.len();
    let nt = timeout_msgs.len();
    // binds the outcome count to a machine word, so the index sums below fit
    let _n_total = results.len();
    let h = *target_height;
    let ghost recvs = views_of(recv_msgs@);
    let ghost acks = views_of(ack_msgs@);
    let ghost touts = views_of(timeout_msgs@);
    let ghost rs = views_of(results@);
    let ghost errs = tm_errs(rs, nr as int + na as int);
    let mut out_recv: Vec<MsgRecvPacket> = Vec::new();
    let mut out_ack: Vec<MsgAcknowledgement> = Vec::new();
    let mut out_tout: Vec<MsgTimeout> = Vec::new();
    #[verifier::loop_isolation(false)]
    for i in 0..nr
        invariant
            out_recv@.len() == i,
            forall|j: int| 0 <= j < i ==> #[trigger] errs[j] is None,
            forall|j: int|
                0 <= j < i ==> #[trigger] out_recv@[j]@ == recv_filled(
                    recvs[j],
                    tm_proof_of(rs[j]),
                    h,
                ),
    {
        proof {
            assert(rs[i as int] == results@[i as int]@);
        }
        match &results[i] {
            TmFetchOutcome::Unavailable => {
                proof {
                    lemma_first_err_is(errs, i as int, ProofError::UpstreamUnavailable);
                }
                return Err(ProofError::UpstreamUnavailable);
            },
            TmFetchOutcome::Fetched { value, proof_bytes } => {
                let absent = value.len() == 0;
                match check_membership(true, absent) {
                    Some(e) => {
                        proof {
                            lemma_first_err_is(errs, i as int, e);
                        }
                        return Err(e);
                    },
                    None => {
                        out_recv.push(
                            MsgRecvPacket {
                                packet: dup_packet(&recv_msgs[i].packet),
                                proof_commitment: clone_bytes(proof_bytes),
                                proof_height: h,
                                signer: clone_bytes(&recv_msgs[i].signer),
                            },
                        );
                    },
                }
            },
        }
    }
    #[verifier::loop_isolation(false)]
    for i in 0..na
        invariant
            out_ack@.len() == i,
            forall|j: int| 0 <= j < nr + i ==> #[trigger] errs[j] is None,
            forall|j: int|
                0 <= j < i ==> #[trigger] out_ack@[j]@ == ack_filled(
                    acks[j],
                    tm_proof_of(rs[nr + j]),
                    h,
                ),
    {
        proof {
            assert(nr as int + (i as int) < results@.len());
            assert(rs[nr + i as int] == results@[nr + i as int]@);
        }
        match &results[nr + i] {
            TmFetchOutcome::Unavailable => {
                proof {
                    lemma_first_err_is(errs, nr + i as int, ProofError::UpstreamUnavailable);
                }
                return Err(ProofError::UpstreamUnavailable);
            },
            TmFetchOutcome::Fetched { value, proof_bytes } => {
                let absent = value.len() == 0;
                match check_membership(true, absent) {
                    Some(e) => {
                        proof {
                            lemma_first_err_is(errs, nr + i as int, e);
                        }
                        return Err(e);
                    },
                    None => {
                        out_ack.push(
                            MsgAcknowledgement {
                                packet: dup_packet(&ack_msgs[i].packet),
                                acknowledgement: clone_bytes_list(&ack_msgs[i].acknowledgement),
                                proof_acked: clone_bytes(proof_bytes),
                                proof_height: h,
                                signer: clone_bytes(&ack_msgs[i].signer),
                            },
                        );
                    },
                }
            },
        }
    }
    #[verifier::loop_isolation(false)]
    for i in 0..nt
        invariant
            out_tout@.len() == i,
            forall|j: int| 0 <= j < nr + na + i ==> #[trigger] errs[j] is None,
            forall|j: int|
                0 <= j < i ==> #[trigger] out_tout@[j]@ == timeout_filled(
                    touts[j],
                    tm_proof_of(rs[nr + na + j]),
                    h,
                ),
    {
        proof {
            assert(nr as int + na as int + (i as int) < results@.len());
            assert(rs[nr + na + i as int] == results@[nr + na + i as int]@);
        }
        match &results[nr + na + i] {
            TmFetchOutcome::Unavailable => {
                proof {
                    lemma_first_err_is(errs, nr + na + i as int, ProofError::UpstreamUnavailable);
                }
                return Err(ProofError::UpstreamUnavailable);
            },
            TmFetchOutcome::Fetched { value, proof_bytes } => {
                let absent = value.len() == 0;
                match check_membership(false, absent) {
                    Some(e) => {
                        proof {
                            lemma_first_err_is(errs, nr + na + i as int, e);
                        }
                        return Err(e);
                    },
                    None => {
                        out_tout.push(
                            MsgTimeout {
                                packet: dup_packet(&timeout_msgs[i].packet),
                                proof_unreceived: clone_bytes(proof_bytes),
                                proof_height: h,
                                signer: clone_bytes(&timeout_msgs[i].signer),
                            },
                        );
                    },
                }
            },
        }
    }
    proof {
        assert(all_ok(errs));
        assert(views_of(out_recv@) =~= Seq::new(
            recvs.len(),
            |i: int| recv_filled(recvs[i], tm_proof_of(rs[i]), h),
        ));
        assert(views_of(out_ack@) =~= Seq::new(
            acks.len(),
            |i: int| ack_filled(acks[i], tm_proof_of(rs[nr + i]), h),
        ));
        assert(views_of(out_tout@) =~= Seq::new(
            touts.len(),
            |i: int| timeout_filled(touts[i], tm_proof_of(rs[nr + na + i]), h),
        ));
    }
    Ok((out_recv, out_ack, out_tout))
}

/// Injection is idempotent: refilling an already-filled batch from the same
/// fetched results succeeds again and leaves every proof field and proof
/// height byte-identical.
pub proof fn lemma_tm_inject_idempotent(
    recvs: Seq<MsgRecvPacketView>,
    acks: Seq<MsgAcknowledgementView>,
    touts: Seq<MsgTimeoutView>,
    results: Seq<TmFetchOutcomeView>,
    h: Height,
    out_r: Seq<MsgRecvPacketView>,
    out_a: Seq<MsgAcknowledgementView>,
    out_t: Seq<MsgTimeoutView>,
)
    requires
        tm_inject_spec(recvs, acks, touts, results, h) == Ok::<
            (Seq<MsgRecvPacketView>, Seq<MsgAcknowledgementView>, Seq<MsgTimeoutView>),
            ProofError,
        >((out_r, out_a, out_t)),
    ensures
        tm_inject_spec(out_r, out_a, out_t, results, h) == Ok::<
            (Seq<MsgRecvPacketView>, Seq<MsgAcknowledgementView>, Seq<MsgTimeoutView>),
            ProofError,
        >((out_r, out_a, out_t)),
{
    let nr = recvs.len() as int;
    let na = acks.len() as int;
    let errs = tm_errs(results, nr + na);
    assert(all_ok(errs));
    assert(out_r.len() == recvs.len());
    assert(out_a.len() == acks.len());
    assert(out_t.len() == touts.len());
    assert(Seq::new(out_r.len(), |i: int| recv_filled(out_r[i], tm_proof_of(results[i]), h))
        =~= out_r);
    assert(Seq::new(out_a.len(), |i: int| ack_filled(out_a[i], tm_proof_of(results[nr + i]), h))
        =~= out_a);
    assert(Seq::new(
        out_t.len(),
        |i: int| timeout_filled(out_t[i], tm_proof_of(results[nr + na + i]), h),
    ) =~= out_t);
}

} // verus!
