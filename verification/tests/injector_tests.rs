use relayer_lib::encoding::{StorageProofEntry, encode_storage_proof};
use relayer_lib::ethereum::{EthFetchOutcome, ethereum_proof_requests, inject_ethereum_proofs};
use relayer_lib::mock::inject_mock_proofs;
use relayer_lib::policy::ProofError;
use relayer_lib::tendermint::{
    TmFetchOutcome, inject_tendermint_proofs, tendermint_proof_requests,
};
use relayer_lib::types::{Height, MsgAcknowledgement, MsgRecvPacket, MsgTimeout, Packet};

fn packet(sequence: u64, source: &[u8], dest: &[u8], timeout_timestamp: u64) -> Packet {
    Packet {
        sequence,
        source_client: source.to_vec(),
        dest_client: dest.to_vec(),
        timeout_timestamp,
        payload: b"payload".to_vec(),
    }
}

fn recv_msg(sequence: u64) -> MsgRecvPacket {
    MsgRecvPacket {
        packet: packet(sequence, b"alpha", b"beta", 100),
        proof_commitment: Vec::new(),
        proof_height: Height { revision_number: 9, revision_height: 9 },
        signer: b"signer".to_vec(),
    }
}

fn ack_msg(sequence: u64) -> MsgAcknowledgement {
    MsgAcknowledgement {
        packet: packet(sequence, b"alpha", b"beta", 100),
        acknowledgement: vec![b"ack".to_vec()],
        proof_acked: Vec::new(),
        proof_height: Height { revision_number: 9, revision_height: 9 },
        signer: b"signer".to_vec(),
    }
}

fn timeout_msg(sequence: u64) -> MsgTimeout {
    MsgTimeout {
        packet: packet(sequence, b"alpha", b"beta", 100),
        proof_unreceived: Vec::new(),
        proof_height: Height { revision_number: 9, revision_height: 9 },
        signer: b"signer".to_vec(),
    }
}

fn fetched(value: &[u8], proof: &[u8]) -> TmFetchOutcome {
    TmFetchOutcome::Fetched { value: value.to_vec(), proof_bytes: proof.to_vec() }
}

#[test]
fn tendermint_requests_derive_prefixed_paths() {
    let recvs = vec![recv_msg(7)];
    let acks = vec![ack_msg(8)];
    let touts = vec![timeout_msg(9)];
    let h = Height { revision_number: 1, revision_height: 55 };
    let reqs = tendermint_proof_requests(&recvs, &acks, &touts, &h);
    assert_eq!(reqs.len(), 3);

    let mut commitment_path = b"alpha".to_vec();
    commitment_path.push(1);
    commitment_path.extend_from_slice(&7u64.to_be_bytes());
    assert_eq!(reqs[0].path, vec![b"ibc".to_vec(), commitment_path]);
    assert_eq!(reqs[0].height, 55);

    let mut ack_path = b"beta".to_vec();
    ack_path.push(3);
    ack_path.extend_from_slice(&8u64.to_be_bytes());
    assert_eq!(reqs[1].path, vec![b"ibc".to_vec(), ack_path]);

    let mut receipt_path = b"beta".to_vec();
    receipt_path.push(2);
    receipt_path.extend_from_slice(&9u64.to_be_bytes());
    assert_eq!(reqs[2].path, vec![b"ibc".to_vec(), receipt_path]);
}

#[test]
fn tendermint_inject_fills_proofs_and_heights() {
    let recvs = vec![recv_msg(1)];
    let acks = vec![ack_msg(2)];
    let touts = vec![timeout_msg(3)];
    let h = Height { revision_number: 1, revision_height: 77 };
    let results = vec![
        fetched(b"commitment", b"proof-r"),
        fetched(b"ackvalue", b"proof-a"),
        fetched(b"", b"proof-t"),
    ];
    let (out_r, out_a, out_t) =
        inject_tendermint_proofs(&recvs, &acks, &touts, &results, &h).unwrap();
    assert_eq!(out_r[0].proof_commitment, b"proof-r".to_vec());
    assert_eq!(out_r[0].proof_height, h);
    assert_eq!(out_r[0].packet.sequence, 1);
    assert_eq!(out_a[0].proof_acked, b"proof-a".to_vec());
    assert_eq!(out_a[0].proof_height, h);
    assert_eq!(out_a[0].acknowledgement, vec![b"ack".to_vec()]);
    assert_eq!(out_t[0].proof_unreceived, b"proof-t".to_vec());
    assert_eq!(out_t[0].proof_height, h);
}

#[test]
fn tendermint_inject_empty_membership_value_fails_whole_call() {
    let recvs = vec![recv_msg(1)];
    let h = Height { revision_number: 1, revision_height: 77 };
    let results = vec![fetched(b"", b"proof-r")];
    let r = inject_tendermint_proofs(&recvs, &vec![], &vec![], &results, &h);
    assert_eq!(r.unwrap_err(), ProofError::ProofEmpty);
}

#[test]
fn tendermint_inject_nonempty_receipt_value_fails_whole_call() {
    let touts = vec![timeout_msg(1)];
    let h = Height { revision_number: 1, revision_height: 77 };
    let results = vec![fetched(b"received", b"proof-t")];
    let r = inject_tendermint_proofs(&vec![], &vec![], &touts, &results, &h);
    assert_eq!(r.unwrap_err(), ProofError::ProofNonEmpty);
}

#[test]
fn tendermint_inject_unreachable_endpoint_fails_whole_call() {
    let recvs = vec![recv_msg(1), recv_msg(2)];
    let h = Height { revision_number: 1, revision_height: 77 };
    let results = vec![fetched(b"v", b"p"), TmFetchOutcome::Unavailable];
    let r = inject_tendermint_proofs(&recvs, &vec![], &vec![], &results, &h);
    assert_eq!(r.unwrap_err(), ProofError::UpstreamUnavailable);
}

#[test]
fn tendermint_inject_first_error_wins() {
    let recvs = vec![recv_msg(1), recv_msg(2)];
    let h = Height { revision_number: 1, revision_height: 77 };
    let results = vec![TmFetchOutcome::Unavailable, fetched(b"", b"p")];
    let r = inject_tendermint_proofs(&recvs, &vec![], &vec![], &results, &h);
    assert_eq!(r.unwrap_err(), ProofError::UpstreamUnavailable);
}

#[test]
fn tendermint_inject_twice_yields_identical_proof_fields() {
    let recvs = vec![recv_msg(1)];
    let acks = vec![ack_msg(2)];
    let touts = vec![timeout_msg(3)];
    let h = Height { revision_number: 1, revision_height: 77 };
    let results = vec![
        fetched(b"commitment", b"proof-r"),
        fetched(b"ackvalue", b"proof-a"),
        fetched(b"", b"proof-t"),
    ];
    let (r1, a1, t1) = inject_tendermint_proofs(&recvs, &acks, &touts, &results, &h).unwrap();
    let (r2, a2, t2) = inject_tendermint_proofs(&r1, &a1, &t1, &results, &h).unwrap();
    assert_eq!(r1[0].proof_commitment, r2[0].proof_commitment);
    assert_eq!(r1[0].proof_height, r2[0].proof_height);
    assert_eq!(a1[0].proof_acked, a2[0].proof_acked);
    assert_eq!(t1[0].proof_unreceived, t2[0].proof_unreceived);
}

#[test]
fn ethereum_requests_use_resolved_block_tag() {
    let recvs = vec![recv_msg(1)];
    let acks = vec![ack_msg(2)];
    let touts = vec![timeout_msg(3)];
    let addr = b"0xcontract".to_vec();
    let slot = vec![0u8; 32];
    // Beacon slot 1000 resolved to execution block 500: every query names
    // block 0x1f4.
    let reqs = ethereum_proof_requests(&recvs, &acks, &touts, &addr, &slot, 500);
    assert_eq!(reqs.len(), 3);
    for rq in &reqs {
        assert_eq!(rq.block_tag, b"0x1f4".to_vec());
        assert_eq!(rq.contract_address, addr);
        assert_eq!(rq.storage_key_hex.len(), 64);
    }
}

fn eth_fetched(value: Vec<u8>) -> EthFetchOutcome {
    EthFetchOutcome::Fetched {
        entries: vec![
            StorageProofEntry {
                key: vec![0xaa; 32],
                value,
                proof_nodes: vec![b"node".to_vec()],
            },
        ],
    }
}

#[test]
fn ethereum_inject_records_beacon_slot_as_height() {
    let recvs = vec![recv_msg(1)];
    let acks = vec![ack_msg(2)];
    let touts = vec![timeout_msg(3)];
    let results = vec![
        eth_fetched(vec![0x01; 32]),
        eth_fetched(vec![0x02; 32]),
        eth_fetched(vec![0x00; 32]),
    ];
    let (out_r, out_a, out_t) =
        inject_ethereum_proofs(&recvs, &acks, &touts, &results, 1000).unwrap();
    let slot_height = Height { revision_number: 0, revision_height: 1000 };
    assert_eq!(out_r[0].proof_height, slot_height);
    assert_eq!(out_a[0].proof_height, slot_height);
    assert_eq!(out_t[0].proof_height, slot_height);
    let expected = encode_storage_proof(&StorageProofEntry {
        key: vec![0xaa; 32],
        value: vec![0x01; 32],
        proof_nodes: vec![b"node".to_vec()],
    });
    assert_eq!(out_r[0].proof_commitment, expected);
    assert!(!out_a[0].proof_acked.is_empty());
    assert!(!out_t[0].proof_unreceived.is_empty());
}

#[test]
fn ethereum_inject_zero_value_for_recv_fails() {
    let recvs = vec![recv_msg(1)];
    let results = vec![eth_fetched(vec![0x00; 32])];
    let r = inject_ethereum_proofs(&recvs, &vec![], &vec![], &results, 1000);
    assert_eq!(r.unwrap_err(), ProofError::ProofEmpty);
}

#[test]
fn ethereum_inject_nonzero_value_for_timeout_fails() {
    let touts = vec![timeout_msg(1)];
    let results = vec![eth_fetched(vec![0x05; 32])];
    let r = inject_ethereum_proofs(&vec![], &vec![], &touts, &results, 1000);
    assert_eq!(r.unwrap_err(), ProofError::ProofNonEmpty);
}

#[test]
fn ethereum_inject_missing_entry_is_malformed() {
    let recvs = vec![recv_msg(1)];
    let results = vec![EthFetchOutcome::Fetched { entries: vec![] }];
    let r = inject_ethereum_proofs(&recvs, &vec![], &vec![], &results, 1000);
    assert_eq!(r.unwrap_err(), ProofError::MalformedResponse);
}

#[test]
fn ethereum_inject_unreachable_endpoint_fails() {
    let recvs = vec![recv_msg(1)];
    let results = vec![EthFetchOutcome::Unavailable];
    let r = inject_ethereum_proofs(&recvs, &vec![], &vec![], &results, 1000);
    assert_eq!(r.unwrap_err(), ProofError::UpstreamUnavailable);
}

#[test]
fn ethereum_inject_twice_yields_identical_proof_fields() {
    let recvs = vec![recv_msg(1)];
    let results = vec![eth_fetched(vec![0x01; 32])];
    let (r1, _, _) = inject_ethereum_proofs(&recvs, &vec![], &vec![], &results, 1000).unwrap();
    let (r2, _, _) = inject_ethereum_proofs(&r1, &vec![], &vec![], &results, 1000).unwrap();
    assert_eq!(r1[0].proof_commitment, r2[0].proof_commitment);
    assert_eq!(r1[0].proof_height, r2[0].proof_height);
}

#[test]
fn mock_inject_sets_sentinel_and_zero_height_on_all_messages() {
    let recvs = vec![recv_msg(1), recv_msg(2)];
    let acks = vec![ack_msg(3)];
    let touts = vec![timeout_msg(4), timeout_msg(5), timeout_msg(6)];
    let (out_r, out_a, out_t) = inject_mock_proofs(&recvs, &acks, &touts);
    assert_eq!(out_r.len(), 2);
    assert_eq!(out_a.len(), 1);
    assert_eq!(out_t.len(), 3);
    let zero = Height { revision_number: 0, revision_height: 0 };
    for m in &out_r {
        assert_eq!(m.proof_commitment, b"mock".to_vec());
        assert_eq!(m.proof_height, zero);
    }
    for m in &out_a {
        assert_eq!(m.proof_acked, b"mock".to_vec());
        assert_eq!(m.proof_height, zero);
    }
    for m in &out_t {
        assert_eq!(m.proof_unreceived, b"mock".to_vec());
        assert_eq!(m.proof_height, zero);
    }
}
