use raft_client::wire::decode_client_response;
use raft_client::wire::decode_frame_len;
use raft_client::wire::decode_preamble;
use raft_client::wire::decode_proposal_request;
use raft_client::wire::encode_client_response;
use raft_client::wire::encode_preamble;
use raft_client::wire::encode_proposal_request;
use raft_client::Address;
use raft_client::ClientId;
use raft_client::ProposalResponse;

fn addr(last_octet: u8, port: u16) -> Address {
    Address { ip0: 127, ip1: 0, ip2: 0, ip3: last_octet, port }
}

fn body_of(frame: &[u8]) -> Vec<u8> {
    assert!(frame.len() >= 8);
    let header = frame[..8].to_vec();
    let len = decode_frame_len(&header).expect("eight header bytes") as usize;
    assert_eq!(frame.len(), 8 + len);
    frame[8..].to_vec()
}

#[test]
fn preamble_frame_exact_bytes() {
    let id = ClientId(0x000102030405060708090a0b0c0d0e0f);
    let frame = encode_preamble(&id);
    let mut expected = vec![0u8, 0, 0, 0, 0, 0, 0, 17, 1];
    expected.extend((0u8..16).collect::<Vec<u8>>());
    assert_eq!(frame, expected);
}

#[test]
fn preamble_round_trip() {
    let id = ClientId(0xfedcba98765432100123456789abcdef);
    let frame = encode_preamble(&id);
    assert_eq!(decode_preamble(&body_of(&frame)), Some(id));
}

#[test]
fn request_frame_exact_bytes() {
    let entry = b"Bears".to_vec();
    let frame = encode_proposal_request(&entry);
    assert_eq!(
        frame,
        vec![0u8, 0, 0, 0, 0, 0, 0, 6, 1, b'B', b'e', b'a', b'r', b's']
    );
}

#[test]
fn request_round_trip() {
    let entry = b"Bears".to_vec();
    let frame = encode_proposal_request(&entry);
    assert_eq!(decode_proposal_request(&body_of(&frame)), Some(entry));
}

#[test]
fn empty_request_round_trip() {
    let entry: Vec<u8> = vec![];
    let frame = encode_proposal_request(&entry);
    assert_eq!(frame, vec![0u8, 0, 0, 0, 0, 0, 0, 1, 1]);
    assert_eq!(decode_proposal_request(&body_of(&frame)), Some(entry));
}

#[test]
fn success_response_exact_bytes() {
    let frame = encode_client_response(&ProposalResponse::Success);
    assert_eq!(frame, vec![0u8, 0, 0, 0, 0, 0, 0, 1, 1]);
    assert_eq!(
        decode_client_response(&body_of(&frame)),
        Some(ProposalResponse::Success)
    );
}

#[test]
fn unknown_leader_response_exact_bytes() {
    let frame = encode_client_response(&ProposalResponse::UnknownLeader);
    assert_eq!(frame, vec![0u8, 0, 0, 0, 0, 0, 0, 1, 2]);
    assert_eq!(
        decode_client_response(&body_of(&frame)),
        Some(ProposalResponse::UnknownLeader)
    );
}

#[test]
fn not_leader_response_exact_bytes() {
    let a = addr(1, 0x1f90);
    let frame = encode_client_response(&ProposalResponse::NotLeader(a));
    assert_eq!(
        frame,
        vec![0u8, 0, 0, 0, 0, 0, 0, 7, 3, 127, 0, 0, 1, 0x1f, 0x90]
    );
    assert_eq!(
        decode_client_response(&body_of(&frame)),
        Some(ProposalResponse::NotLeader(a))
    );
}

#[test]
fn malformed_response_bodies_are_rejected() {
    assert_eq!(decode_client_response(&vec![]), None);
    assert_eq!(decode_client_response(&vec![9]), None);
    assert_eq!(decode_client_response(&vec![1, 2]), None);
    assert_eq!(decode_client_response(&vec![3, 127, 0, 0, 1]), None);
    assert_eq!(decode_client_response(&vec![3, 127, 0, 0, 1, 0x1f, 0x90, 0]), None);
}

#[test]
fn malformed_preamble_bodies_are_rejected() {
    assert_eq!(decode_preamble(&vec![]), None);
    assert_eq!(decode_preamble(&vec![2; 17]), None);
    assert_eq!(decode_preamble(&vec![1; 16]), None);
}

#[test]
fn malformed_request_bodies_are_rejected() {
    assert_eq!(decode_proposal_request(&vec![]), None);
    assert_eq!(decode_proposal_request(&vec![2, 0]), None);
}

#[test]
fn frame_len_reads_eight_header_bytes() {
    assert_eq!(decode_frame_len(&vec![0, 0, 0, 0, 0, 0, 1, 2]), Some(258));
    assert_eq!(decode_frame_len(&vec![0, 0, 0, 0, 0, 0, 1]), None);
    assert_eq!(decode_frame_len(&vec![0; 9]), None);
}
