use vstd::prelude::*;

use crate::types::{
    Height, MsgAcknowledgement, MsgAcknowledgementView, MsgRecvPacket, MsgRecvPacketView,
    MsgTimeout, MsgTimeoutView, ack_filled, clone_bytes, clone_bytes_list, dup_packet,
    lemma_add_push, lemma_map_values_push, recv_filled, result_views, timeout_filled, views_of,
};
use crate::encoding::{
    StorageProofEntry, StorageProofEntryView, encode_storage_proof, is_zero_value,
    storage_proof_encoding, value_is_zero,
};
use crate::hexfmt::{block_tag, block_tag_spec, bytes_hex, hex_of_bytes};
use crate::keccak::{eth_storage_key, storage_key_spec};
use crate::paths::{PathRole, packet_path, packet_path_spec};
use crate::policy::{
    ProofError, all_ok, check_membership, first_err_from, lemma_first_err_is, membership_policy,
};

verus! {

/// One storage-proof query to run against the execution JSON-RPC endpoint:
/// the contract address as given, the storage slot key in hexadecimal, and
/// the block tag of the resolved execution block.
#[derive(Debug)]
pub struct EthProofRequest {
    pub contract_address: Vec<u8>,
    pub storage_key_hex: Vec<u8>,
    pub block_tag: Vec<u8>,
}

/// The mathematical value of an [`EthProofRequest`].
pub ghost struct EthProofRequestView {
    pub contract_address: Seq<u8>,
    pub storage_key_hex: Seq<u8>,
    pub block_tag: Seq<u8>,
}

impl View for EthProofRequest {
    type V = EthProofRequestView;

    open spec fn view(&self) -> EthProofRequestView {
        EthProofRequestView {
            contract_address: self.contract_address@,
            storage_key_hex: self.storage_key_hex@,
            block_tag: self.block_tag@,
        }
    }
}

/// What one storage-proof fetch produced: the storage-proof entries the
/// endpoint reported (exactly one is expected), or the endpoint was
/// unreachable.
#[derive(Debug)]
pub enum EthFetchOutcome {
    Fetched { entries: Vec<StorageProofEntry> },
    Unavailable,
}

/// The mathematical value of an [`EthFetchOutcome`].
pub ghost enum EthFetchOutcomeView {
    Fetched { entries: Seq<StorageProofEntryView> },
    Unavailable,
}

impl View for EthFetchOutcome {
    type V = EthFetchOutcomeView;

    open spec fn view(&self) -> EthFetchOutcomeView {
        match self {
            EthFetchOutcome::Fetched { entries } => (EthFetchOutcomeView::Fetched {
                entries: views_of(entries@),
            }),
            EthFetchOutcome::Unavailable => EthFetchOutcomeView::Unavailable,
        }
    }
}

/// The query for one storage path: the slot key is the hash of the path's
/// digest and the contract's base slot, the block tag names the resolved
/// execution block.
pub open spec fn eth_request_of(
    addr: Seq<u8>,
    path: Seq<u8>,
    base_slot: Seq<u8>,
    block_number: u64,
) -> EthProofRequestView {
    EthProofRequestView {
        contract_address: addr,
        storage_key_hex: bytes_hex(storage_key_spec(path, base_slot)),
        block_tag: block_tag_spec(block_number),
    }
}

/// The query builder for receive messages, as a function value.
pub open spec fn eth_recv_request(addr: Seq<u8>, base_slot: Seq<u8>, bn: u64) -> spec_fn(
    MsgRecvPacketView,
) -> EthProofRequestView {
    |m: MsgRecvPacketView| eth_request_of(
        addr,
        packet_path_spec(m.packet, PathRole::Commitment),
        base_slot,
        bn,
    )
}

/// The query builder for acknowledgement messages, as a function value.
pub open spec fn eth_ack_request(addr: Seq<u8>, base_slot: Seq<u8>, bn: u64) -> spec_fn(
    MsgAcknowledgementView,
) -> EthProofRequestView {
    |m: MsgAcknowledgementView| eth_request_of(
        addr,
        packet_path_spec(m.packet, PathRole::Acknowledgement),
        base_slot,
        bn,
    )
}

/// The query builder for timeout messages, as a function value.
pub open spec fn eth_timeout_request(addr: Seq<u8>, base_slot: Seq<u8>, bn: u64) -> spec_fn(
    MsgTimeoutView,
) -> EthProofRequestView {
    |m: MsgTimeoutView| eth_request_of(
        addr,
        packet_path_spec(m.packet, PathRole::Receipt),
        base_slot,
        bn,
    )
}

/// The queries an Ethereum injection call must run: one per message, in
/// batch order (receive, acknowledgement, timeout), all against the same
/// resolved execution block.
pub open spec fn eth_requests_spec(
    recvs: Seq<MsgRecvPacketView>,
    acks: Seq<MsgAcknowledgementView>,
    touts: Seq<MsgTimeoutView>,
    addr: Seq<u8>,
    base_slot: Seq<u8>,
    bn: u64,
) -> Seq<EthProofRequestView> {
    recvs.map_values(eth_recv_request(addr, base_slot, bn)) + acks.map_values(
        eth_ack_request(addr, base_slot, bn),
    ) + touts.map_values(eth_timeout_request(addr, base_slot, bn))
}

/// Builds the storage-proof queries for the three message batches against
/// one resolved execution block.
pub fn ethereum_proof_requests(
    recv_msgs: &Vec<MsgRecvPacket>,
    ack_msgs: &Vec<MsgAcknowledgement>,
    timeout_msgs: &Vec<MsgTimeout>,
    contract_address: &Vec<u8>,
    contract_base_slot: &Vec<u8>,
    block_number: u64,
) -> (r: Vec<EthProofRequest>)
    requires
        contract_base_slot@.len() == 32,
    ensures
        views_of(r@) == eth_requests_spec(
            views_of(recv_msgs@),
            views_of(ack_msgs@),
            views_of(timeout_msgs@),
            contract_address@,
            contract_base_slot@,
            block_number,
        ),
{
    let ghost recvs = views_of(recv_msgs@);
    let ghost acks = views_of(ack_msgs@);
    let ghost touts = views_of(timeout_msgs@);
    let ghost addr = contract_address@;
    let ghost base_slot = contract_base_slot@;
    let mut r: Vec<EthProofRequest> = Vec::new();
    #[verifier::loop_isolation(false)]
    for i in 0..recv_msgs.len()
        invariant
            views_of(r@) == recvs.take(i as int).map_values(
                eth_recv_request(addr, base_slot, block_number),
            ),
    {
        let path = packet_path(&recv_msgs[i].packet, PathRole::Commitment);
        let key = eth_storage_key(&path, contract_base_slot);
        r.push(
            EthProofRequest {
                contract_address: clone_bytes(contract_address),
                storage_key_hex: hex_of_bytes(&key),
                block_tag: block_tag(block_number),
            },
        );
        proof {
            lemma_map_values_push(
                recvs.take(i as int),
                recvs[i as int],
                eth_recv_request(addr, base_slot, block_number),
            );
            assert(recvs.take(i + 1) =~= recvs.take(i as int).push(recvs[i as int]));
            assert(recvs[i as int] == recv_msgs@[i as int]@);
            assert(views_of(r@) =~= recvs.take(i + 1).map_values(
                eth_recv_request(addr, base_slot, block_number),
            ));
        }
    }
    proof {
        assert(recvs.take(recvs.len() as int) =~= recvs);
    }
    #[verifier::loop_isolation(false)]
    for i in 0..ack_msgs.len()
        invariant
            views_of(r@) == recvs.map_values(eth_recv_request(addr, base_slot, block_number))
                + acks.take(i as int).map_values(eth_ack_request(addr, base_slot, block_number)),
    {
        let path = packet_path(&ack_msgs[i].packet, PathRole::Acknowledgement);
        let key = eth_storage_key(&path, contract_base_slot);
        r.push(
            EthProofRequest {
                contract_address: clone_bytes(contract_address),
                storage_key_hex: hex_of_bytes(&key),
                block_tag: block_tag(block_number),
            },
        );
        proof {
            lemma_map_values_push(
                acks.take(i as int),
                acks[i as int],
                eth_ack_request(addr, base_slot, block_number),
            );
            lemma_add_push(
                recvs.map_values(eth_recv_request(addr, base_slot, block_number)),
                acks.take(i as int).map_values(eth_ack_request(addr, base_slot, block_number)),
                eth_ack_request(addr, base_slot, block_number)(acks[i as int]),
            );
            assert(acks.take(i + 1) =~= acks.take(i as int).push(acks[i as int]));
            assert(acks[i as int] == ack_msgs@[i as int]@);
            assert(views_of(r@) =~= recvs.map_values(eth_recv_request(addr, base_slot, block_number))
                + acks.take(i + 1).map_values(eth_ack_request(addr, base_slot, block_number)));
        }
    }
    proof {
        assert(acks.take(acks.len() as int) =~= acks);
    }
    #[verifier::loop_isolation(false)]
    for i in 0..timeout_msgs.len()
        invariant
            views_of(r@) == recvs.map_values(eth_recv_request(addr, base_slot, block_number))
                + acks.map_values(eth_ack_request(addr, base_slot, block_number)) + touts.take(
                i as int,
            ).map_values(eth_timeout_request(addr, base_slot, block_number)),
    {
        let path = packet_path(&timeout_msgs[i].packet, PathRole::Receipt);
        let key = eth_storage_key(&path, contract_base_slot);
        r.push(
            EthProofRequest {
                contract_address: clone_bytes(contract_address),
                storage_key_hex: hex_of_bytes(&key),
                block_tag: block_tag(block_number),
            },
        );
        proof {
            lemma_map_values_push(
                touts.take(i as int),
                touts[i as int],
                eth_timeout_request(addr, base_slot, block_number),
            );
            lemma_add_push(
                recvs.map_values(eth_recv_request(addr, base_slot, block_number)) + acks.map_values(
                    eth_ack_request(addr, base_slot, block_number),
                ),
                touts.take(i as int).map_values(eth_timeout_request(addr, base_slot, block_number)),
                eth_timeout_request(addr, base_slot, block_number)(touts[i as int]),
            );
            assert(touts.take(i + 1) =~= touts.take(i as int).push(touts[i as int]));
            assert(touts[i as int] == timeout_msgs@[i as int]@);
            assert(views_of(r@) =~= recvs.map_values(eth_recv_request(addr, base_slot, block_number))
                + acks.map_values(eth_ack_request(addr, base_slot, block_number)) + touts.take(
                i + 1,
            ).map_values(eth_timeout_request(addr, base_slot, block_number)));
        }
    }
    proof {
        assert(touts.take(touts.len() as int) =~= touts);
    }
    r
}

/// The check one fetched outcome must pass: reachability, then exactly one
/// storage-proof entry expected, then the membership policy on the claimed
/// value (all bytes zero denotes absence).
pub open spec fn eth_outcome_err(expect_membership: bool, o: EthFetchOutcomeView) -> Option<
    ProofError,
> {
    match o {
        EthFetchOutcomeView::Unavailable => Some(ProofError::UpstreamUnavailable),
        EthFetchOutcomeView::Fetched { entries } => if entries.len() == 0 {
            Some(ProofError::MalformedResponse)
        } else {
            membership_policy(expect_membership, is_zero_value(entries[0].value))
        },
    }
}

/// The per-message checks of an Ethereum injection call: membership is
/// expected for the first `n_membership` fetches (receive and
/// acknowledgement messages), non-membership for the rest (timeouts).
pub open spec fn eth_errs(results: Seq<EthFetchOutcomeView>, n_membership: int) -> Seq<
    Option<ProofError>,
> {
    Seq::new(results.len(), |i: int| eth_outcome_err(i < n_membership, results[i]))
}

/// The first storage-proof entry of a successful fetch.
pub open spec fn eth_entry(o: EthFetchOutcomeView) -> StorageProofEntryView {
    match o {
        EthFetchOutcomeView::Fetched { entries } => entries[0],
        EthFetchOutcomeView::Unavailable => arbitrary(),
    }
}

/// The proof height an Ethereum injection call records: the beacon slot the
/// proof was requested for, not the execution block it was fetched at,
/// because the counterparty light client tracks beacon state.
pub open spec fn slot_height(proof_slot: u64) -> Height {
    Height { revision_number: 0, revision_height: proof_slot }
}

/// What an Ethereum injection call returns: if every fetch succeeded under
/// the membership policy, the three batches with each message's proof field
/// set to its serialized storage proof and its proof height set to the
/// beacon slot; otherwise the first failing check's error, in
/// batch-then-index order.
pub open spec fn eth_inject_spec(
    recvs: Seq<MsgRecvPacketView>,
    acks: Seq<MsgAcknowledgementView>,
    touts: Seq<MsgTimeoutView>,
    results: Seq<EthFetchOutcomeView>,
    proof_slot: u64,
) -> Result<(Seq<MsgRecvPacketView>, Seq<MsgAcknowledgementView>, Seq<MsgTimeoutView>), ProofError> {
    let nr = recvs.len() as int;
    let na = acks.len() as int;
    let h = slot_height(proof_slot);
    let errs = eth_errs(results, nr + na);
    if all_ok(errs) {
        Ok(
            (
                Seq::new(
                    recvs.len(),
                    |i: int| recv_filled(
                        recvs[i],
                        storage_proof_encoding(eth_entry(results[i])),
                        h,
                    ),
                ),
                Seq::new(
                    acks.len(),
                    |i: int| ack_filled(
                        acks[i],
                        storage_proof_encoding(eth_entry(results[nr + i])),
                        h,
                    ),
                ),
                Seq::new(
                    touts.len(),
                    |i: int| timeout_filled(
                        touts[i],
                        storage_proof_encoding(eth_entry(results[nr + na + i])),
                        h,
                    ),
                ),
            ),
        )
    } else {
        Err(first_err_from(errs, 0))
    }
}

/// Fills the three batches from the fetched storage proofs, all-or-nothing:
/// on success every message carries its own serialized storage proof and
/// the beacon slot as proof height; on the first failing check nothing is
/// returned and the caller must rebuild and retry the whole set. `results`
/// holds one outcome per message, in the order of
/// [`ethereum_proof_requests`].
pub fn inject_ethereum_proofs(
    recv_msgs: &Vec<MsgRecvPacket>,
    ack_msgs: &Vec<MsgAcknowledgement>,
    timeout_msgs: &Vec<MsgTimeout>,
    results: &Vec<EthFetchOutcome>,
    proof_slot: u64,
) -> (r: Result<(Vec<MsgRecvPacket>, Vec<MsgAcknowledgement>, Vec<MsgTimeout>), ProofError>)
    requires
        results@.len() == recv_msgs@.len() + ack_msgs@.len() + timeout_msgs@.len(),
    ensures
        result_views(r) == eth_inject_spec(
            views_of(recv_msgs@),
            views_of(ack_msgs@),
            views_of(timeout_msgs@),
            views_of(results@),
            proof_slot,
        ),
{
    let nr = recv_msgs.len();
    let na = ack_msgs.len();
    let nt = timeout_msgs.len();
    // binds the outcome count to a machine word, so the index sums below fit
    let _n_total = results.len();
    let h = Height { revision_number: 0, revision_height: proof_slot };
    let ghost recvs = views_of(recv_msgs@);
    let ghost acks = views_of(ack_msgs@);
    let ghost touts = views_of(timeout_msgs@);
    let ghost rs = views_of(results@);
    let ghost errs = eth_errs(rs, nr as int + na as int);
    let mut out_recv: Vec<MsgRecvPacket> = Vec::new();
    let mut out_ack: Vec<MsgAcknowledgement> = Vec::new();
    let mut out_tout: Vec<MsgTimeout> = Vec::new();
    #[verifier::loop_isolation(false)]
    for i in 0..nr
        invariant
            out_recv@.len() == i,
            forall|j: int| 0 <= j < i ==> #[trigger] errs[j] is None,
            forall|j: int|
                0 <= j < i ==> #[trigger] out_recv@[j]@ == recv_filled(
                    recvs[j],
                    storage_proof_encoding(eth_entry(rs[j])),
                    h,
                ),
    {
        proof {
            assert(rs[i as int] == results@[i as int]@);
        }
        match &results[i] {
            EthFetchOutcome::Unavailable => {
                proof {
                    lemma_first_err_is(errs, i as int, ProofError::UpstreamUnavailable);
                }
                return Err(ProofError::UpstreamUnavailable);
            },
            EthFetchOutcome::Fetched { entries } => {
                if entries.len() == 0 {
                    proof {
                        lemma_first_err_is(errs, i as int, ProofError::MalformedResponse);
                    }
                    return Err(ProofError::MalformedResponse);
                }
                proof {
                    assert(eth_entry(rs[i as int]) == entries@[0]@);
                }
                let absent = value_is_zero(&entries[0].value);
                match check_membership(true, absent) {
                    Some(e) => {
                        proof {
                            lemma_first_err_is(errs, i as int, e);
                        }
                        return Err(e);
                    },
                    None => {
                        out_recv.push(
                            MsgRecvPacket {
                                packet: dup_packet(&recv_msgs[i].packet),
                                proof_commitment: encode_storage_proof(&entries[0]),
                                proof_height: h,
                                signer: clone_bytes(&recv_msgs[i].signer),
                            },
                        );
                    },
                }
            },
        }
    }
    #[verifier::loop_isolation(false)]
    for i in 0..na
        invariant
            out_ack@.len() == i,
            forall|j: int| 0 <= j < nr + i ==> #[trigger] errs[j] is None,
            forall|j: int|
                0 <= j < i ==> #[trigger] out_ack@[j]@ == ack_filled(
                    acks[j],
                    storage_proof_encoding(eth_entry(rs[nr + j])),
                    h,
                ),
    {
        proof {
            assert(nr as int + (i as int) < results@.len());
            assert(rs[nr + i as int] == results@[nr + i as int]@);
        }
        match &results[nr + i] {
            EthFetchOutcome::Unavailable => {
                proof {
                    lemma_first_err_is(errs, nr + i as int, ProofError::UpstreamUnavailable);
                }
                return Err(ProofError::UpstreamUnavailable);
            },
            EthFetchOutcome::Fetched { entries } => {
                if entries.len() == 0 {
                    proof {
                        lemma_first_err_is(errs, nr + i as int, ProofError::MalformedResponse);
                    }
                    return Err(ProofError::MalformedResponse);
                }
                proof {
                    assert(eth_entry(rs[nr + i as int]) == entries@[0]@);
                }
                let absent = value_is_zero(&entries[0].value);
                match check_membership(true, absent) {
                    Some(e) => {
                        proof {
                            lemma_first_err_is(errs, nr + i as int, e);
                        }
                        return Err(e);
                    },
                    None => {
                        out_ack.push(
                            MsgAcknowledgement {
                                packet: dup_packet(&ack_msgs[i].packet),
                                acknowledgement: clone_bytes_list(&ack_msgs[i].acknowledgement),
                                proof_acked: encode_storage_proof(&entries[0]),
                                proof_height: h,
                                signer: clone_bytes(&ack_msgs[i].signer),
                            },
                        );
                    },
                }
            },
        }
    }
    #[verifier::loop_isolation(false)]
    for i in 0..nt
        invariant
            out_tout@.len() == i,
            forall|j: int| 0 <= j < nr + na + i ==> #[trigger] errs[j] is None,
            forall|j: int|
                0 <= j < i ==> #[trigger] out_tout@[j]@ == timeout_filled(
                    touts[j],
                    storage_proof_encoding(eth_entry(rs[nr + na + j])),
                    h,
                ),
    {
        proof {
            assert(nr as int + na as int + (i as int) < results@.len());
            assert(rs[nr + na + i as int] == results@[nr + na + i as int]@);
        }
        match &results[nr + na + i] {
            EthFetchOutcome::Unavailable => {
                proof {
                    lemma_first_err_is(errs, nr + na + i as int, ProofError::UpstreamUnavailable);
                }
                return Err(ProofError::UpstreamUnavailable);
            },
            EthFetchOutcome::Fetched { entries } => {
                if entries.len() == 0 {
                    proof {
                        lemma_first_err_is(errs, nr + na + i as int, ProofError::MalformedResponse);
                    }
                    return Err(ProofError::MalformedResponse);
                }
                proof {
                    assert(eth_entry(rs[nr + na + i as int]) == entries@[0]@);
                }
                let absent = value_is_zero(&entries[0].value);
                match check_membership(false, absent) {
                    Some(e) => {
                        proof {
                            lemma_first_err_is(errs, nr + na + i as int, e);
                        }
                        return Err(e);
                    },
                    None => {
                        out_tout.push(
                            MsgTimeout {
                                packet: dup_packet(&timeout_msgs[i].packet),
                                proof_unreceived: encode_storage_proof(&entries[0]),
                                proof_height: h,
                                signer: clone_bytes(&timeout_msgs[i].signer),
                            },
                        );
                    },
                }
            },
        }
    }
    proof {
        assert(all_ok(errs));
        assert(views_of(out_recv@) =~= Seq::new(
            recvs.len(),
            |i: int| recv_filled(recvs[i], storage_proof_encoding(eth_entry(rs[i])), h),
        ));
        assert(views_of(out_ack@) =~= Seq::new(
            acks.len(),
            |i: int| ack_filled(acks[i], storage_proof_encoding(eth_entry(rs[nr + i])), h),
        ));
        assert(views_of(out_tout@) =~= Seq::new(
            touts.len(),
            |i: int| timeout_filled(touts[i], storage_proof_encoding(eth_entry(rs[nr + na + i])), h),
        ));
    }
    Ok((out_recv, out_ack, out_tout))
}

/// Injection is idempotent: refilling an already-filled batch from the same
/// fetched results succeeds again and leaves every proof field and proof
/// height byte-identical.
pub proof fn lemma_eth_inject_idempotent(
    recvs: Seq<MsgRecvPacketView>,
    acks: Seq<MsgAcknowledgementView>,
    touts: Seq<MsgTimeoutView>,
    results: Seq<EthFetchOutcomeView>,
    proof_slot: u64,
    out_r: Seq<MsgRecvPacketView>,
    out_a: Seq<MsgAcknowledgementView>,
    out_t: Seq<MsgTimeoutView>,
)
    requires
        eth_inject_spec(recvs, acks, touts, results, proof_slot) == Ok::<
            (Seq<MsgRecvPacketView>, Seq<MsgAcknowledgementView>, Seq<MsgTimeoutView>),
            ProofError,
        >((out_r, out_a, out_t)),
    ensures
        eth_inject_spec(out_r, out_a, out_t, results, proof_slot) == Ok::<
            (Seq<MsgRecvPacketView>, Seq<MsgAcknowledgementView>, Seq<MsgTimeoutView>),
            ProofError,
        >((out_r, out_a, out_t)),
{
    let nr = recvs.len() as int;
    let na = acks.len() as int;
    let h = slot_height(proof_slot);
    let errs = eth_errs(results, nr + na);
    assert(all_ok(errs));
    assert(out_r.len() == recvs.len());
    assert(out_a.len() == acks.len());
    assert(out_t.len() == touts.len());
    assert(Seq::new(
        out_r.len(),
        |i: int| recv_filled(out_r[i], storage_proof_encoding(eth_entry(results[i])), h),
    ) =~= out_r);
    assert(Seq::new(
        out_a.len(),
        |i: int| ack_filled(out_a[i], storage_proof_encoding(eth_entry(results[nr + i])), h),
    ) =~= out_a);
    assert(Seq::new(
        out_t.len(),
        |i: int| timeout_filled(
            out_t[i],
            storage_proof_encoding(eth_entry(results[nr + na + i])),
            h,
        ),
    ) =~= out_t);
}

} // verus!
