use sha3::{Digest, Keccak256};

use relayer_lib::encoding::{StorageProofEntry, encode_storage_proof, value_is_zero};
use relayer_lib::hexfmt::{block_tag, hex_of_bytes};
use relayer_lib::keccak::eth_storage_key;
use relayer_lib::paths::{PathRole, packet_path, store_prefix_bytes, u64_be_bytes};
use relayer_lib::types::Packet;

fn packet(sequence: u64, source: &[u8], dest: &[u8]) -> Packet {
    Packet {
        sequence,
        source_client: source.to_vec(),
        dest_client: dest.to_vec(),
        timeout_timestamp: 0,
        payload: Vec::new(),
    }
}

#[test]
fn u64_be_bytes_matches_std() {
    assert_eq!(u64_be_bytes(0x0102030405060708), 0x0102030405060708u64.to_be_bytes().to_vec());
    assert_eq!(u64_be_bytes(0), vec![0u8; 8]);
    assert_eq!(u64_be_bytes(u64::MAX), vec![0xffu8; 8]);
}

#[test]
fn packet_paths_have_owner_tag_and_sequence() {
    let p = packet(0x1122, b"src-client", b"dst-client");

    let mut expected = b"src-client".to_vec();
    expected.push(1);
    expected.extend_from_slice(&0x1122u64.to_be_bytes());
    assert_eq!(packet_path(&p, PathRole::Commitment), expected);

    let mut expected = b"dst-client".to_vec();
    expected.push(3);
    expected.extend_from_slice(&0x1122u64.to_be_bytes());
    assert_eq!(packet_path(&p, PathRole::Acknowledgement), expected);

    let mut expected = b"dst-client".to_vec();
    expected.push(2);
    expected.extend_from_slice(&0x1122u64.to_be_bytes());
    assert_eq!(packet_path(&p, PathRole::Receipt), expected);
}

#[test]
fn store_prefix_is_ibc() {
    assert_eq!(store_prefix_bytes(), b"ibc".to_vec());
}

#[test]
fn hex_spellings() {
    assert_eq!(hex_of_bytes(&vec![0xde, 0xad, 0xbe, 0xef]), b"deadbeef".to_vec());
    assert_eq!(hex_of_bytes(&vec![0x00, 0x0f]), b"000f".to_vec());
    assert_eq!(hex_of_bytes(&Vec::new()), Vec::<u8>::new());
    assert_eq!(block_tag(0), b"0x0".to_vec());
    assert_eq!(block_tag(500), b"0x1f4".to_vec());
    assert_eq!(block_tag(15), b"0xf".to_vec());
    assert_eq!(block_tag(16), b"0x10".to_vec());
}

#[test]
fn zero_value_means_every_byte_zero() {
    assert!(value_is_zero(&Vec::new()));
    assert!(value_is_zero(&vec![0u8; 32]));
    assert!(!value_is_zero(&vec![0, 0, 1, 0]));
}

#[test]
fn storage_proof_encoding_is_length_framed() {
    let entry = StorageProofEntry {
        key: vec![0xaa],
        value: vec![0x01],
        proof_nodes: vec![vec![0xbb, 0xcc]],
    };
    let mut expected: Vec<u8> = Vec::new();
    expected.extend_from_slice(&1u64.to_be_bytes());
    expected.push(0xaa);
    expected.extend_from_slice(&1u64.to_be_bytes());
    expected.push(0x01);
    expected.extend_from_slice(&1u64.to_be_bytes());
    expected.extend_from_slice(&2u64.to_be_bytes());
    expected.push(0xbb);
    expected.push(0xcc);
    assert_eq!(encode_storage_proof(&entry), expected);
}

#[test]
fn storage_key_is_keccak_of_path_digest_and_slot() {
    let path = b"some-commitment-path".to_vec();
    let mut slot = vec![0u8; 32];
    slot[31] = 5;

    let inner: [u8; 32] = Keccak256::digest(&path).into();
    let mut outer_input = inner.to_vec();
    outer_input.extend_from_slice(&slot);
    let expected: [u8; 32] = Keccak256::digest(&outer_input).into();

    let got = eth_storage_key(&path, &slot);
    assert_eq!(got, expected.to_vec());
    assert_eq!(got.len(), 32);
    assert_ne!(got, path);
}

#[test]
fn storage_key_depends_on_path_and_slot() {
    let slot = vec![0u8; 32];
    let k1 = eth_storage_key(&b"path-a".to_vec(), &slot);
    let k2 = eth_storage_key(&b"path-b".to_vec(), &slot);
    assert_ne!(k1, k2);
    let mut other_slot = vec![0u8; 32];
    other_slot[0] = 1;
    let k3 = eth_storage_key(&b"path-a".to_vec(), &other_slot);
    assert_ne!(k1, k3);
    assert_eq!(k1, eth_storage_key(&b"path-a".to_vec(), &slot));
}
