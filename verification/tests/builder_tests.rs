use relayer_lib::builder::{src_events_to_recv_and_ack_msgs, target_events_to_timeout_msgs};
use relayer_lib::types::{EurekaEvent, EurekaEventWithHeight, Height, Packet};

fn packet(sequence: u64, source: &[u8], dest: &[u8], timeout_timestamp: u64) -> Packet {
    Packet {
        sequence,
        source_client: source.to_vec(),
        dest_client: dest.to_vec(),
        timeout_timestamp,
        payload: b"payload".to_vec(),
    }
}

fn send_event(p: Packet) -> EurekaEventWithHeight {
    EurekaEventWithHeight {
        event: EurekaEvent::SendPacket(p),
        height: Height { revision_number: 1, revision_height: 10 },
    }
}

fn ack_event(p: Packet, acks: Vec<Vec<u8>>) -> EurekaEventWithHeight {
    EurekaEventWithHeight {
        event: EurekaEvent::WriteAcknowledgement(p, acks),
        height: Height { revision_number: 1, revision_height: 10 },
    }
}

#[test]
fn timed_out_packet_becomes_one_timeout_and_no_recv() {
    let events = vec![send_event(packet(1, b"client-1", b"client-2", 100))];
    let target = b"client-1".to_vec();
    let h = Height { revision_number: 1, revision_height: 42 };
    let signer = b"signer".to_vec();

    let timeouts = target_events_to_timeout_msgs(&events, &target, &h, &signer, 150);
    assert_eq!(timeouts.len(), 1);
    assert_eq!(timeouts[0].packet.sequence, 1);
    assert_eq!(timeouts[0].packet.source_client, b"client-1".to_vec());
    assert_eq!(timeouts[0].proof_unreceived, Vec::<u8>::new());
    assert_eq!(timeouts[0].proof_height, h);
    assert_eq!(timeouts[0].signer, b"signer".to_vec());

    let (recvs, acks) = src_events_to_recv_and_ack_msgs(&events, &target, &h, &signer, 150);
    assert_eq!(recvs.len(), 0);
    assert_eq!(acks.len(), 0);
}

#[test]
fn live_packet_becomes_one_recv_and_no_timeout() {
    let events = vec![send_event(packet(1, b"client-2", b"client-1", 100))];
    let target = b"client-1".to_vec();
    let h = Height { revision_number: 1, revision_height: 42 };
    let signer = b"signer".to_vec();

    let (recvs, acks) = src_events_to_recv_and_ack_msgs(&events, &target, &h, &signer, 50);
    assert_eq!(recvs.len(), 1);
    assert_eq!(recvs[0].packet.sequence, 1);
    assert_eq!(recvs[0].packet.dest_client, b"client-1".to_vec());
    assert_eq!(recvs[0].proof_commitment, Vec::<u8>::new());
    assert_eq!(recvs[0].proof_height, h);
    assert_eq!(acks.len(), 0);

    let timeouts = target_events_to_timeout_msgs(&events, &target, &h, &signer, 50);
    assert_eq!(timeouts.len(), 0);
}

#[test]
fn timeout_needs_matching_source_client() {
    let events = vec![send_event(packet(1, b"client-9", b"client-1", 100))];
    let target = b"client-1".to_vec();
    let h = Height { revision_number: 0, revision_height: 1 };
    let signer = b"s".to_vec();
    let timeouts = target_events_to_timeout_msgs(&events, &target, &h, &signer, 150);
    assert_eq!(timeouts.len(), 0);
}

#[test]
fn timeout_boundary_is_inclusive() {
    let events = vec![send_event(packet(1, b"client-1", b"client-2", 100))];
    let target = b"client-1".to_vec();
    let h = Height { revision_number: 0, revision_height: 1 };
    let signer = b"s".to_vec();
    // now == timeoutTimestamp counts as elapsed for the timeout pass...
    assert_eq!(target_events_to_timeout_msgs(&events, &target, &h, &signer, 100).len(), 1);
    // ...and as not-live for the receive pass.
    let target_dest = b"client-2".to_vec();
    let (recvs, _) = src_events_to_recv_and_ack_msgs(&events, &target_dest, &h, &signer, 100);
    assert_eq!(recvs.len(), 0);
}

#[test]
fn ack_events_map_to_ack_messages_in_order() {
    let events = vec![
        ack_event(packet(3, b"client-1", b"client-2", 100), vec![b"ack-a".to_vec()]),
        ack_event(packet(9, b"client-7", b"client-2", 100), vec![b"other".to_vec()]),
        ack_event(
            packet(5, b"client-1", b"client-2", 100),
            vec![b"ack-b".to_vec(), b"ack-c".to_vec()],
        ),
    ];
    let target = b"client-1".to_vec();
    let h = Height { revision_number: 2, revision_height: 7 };
    let signer = b"signer".to_vec();
    let (recvs, acks) = src_events_to_recv_and_ack_msgs(&events, &target, &h, &signer, 50);
    assert_eq!(recvs.len(), 0);
    assert_eq!(acks.len(), 2);
    assert_eq!(acks[0].packet.sequence, 3);
    assert_eq!(acks[0].acknowledgement, vec![b"ack-a".to_vec()]);
    assert_eq!(acks[1].packet.sequence, 5);
    assert_eq!(acks[1].acknowledgement, vec![b"ack-b".to_vec(), b"ack-c".to_vec()]);
    assert_eq!(acks[0].proof_acked, Vec::<u8>::new());
    assert_eq!(acks[0].proof_height, h);
}

#[test]
fn mixed_events_are_partitioned_and_order_preserved() {
    let events = vec![
        send_event(packet(1, b"client-2", b"client-1", 100)),
        ack_event(packet(2, b"client-1", b"client-2", 100), vec![b"a".to_vec()]),
        send_event(packet(3, b"client-2", b"client-1", 200)),
        send_event(packet(4, b"client-2", b"client-9", 200)),
    ];
    let target = b"client-1".to_vec();
    let h = Height { revision_number: 0, revision_height: 3 };
    let signer = b"s".to_vec();
    let (recvs, acks) = src_events_to_recv_and_ack_msgs(&events, &target, &h, &signer, 50);
    assert_eq!(recvs.len(), 2);
    assert_eq!(recvs[0].packet.sequence, 1);
    assert_eq!(recvs[1].packet.sequence, 3);
    assert_eq!(acks.len(), 1);
    assert_eq!(acks[0].packet.sequence, 2);
}
