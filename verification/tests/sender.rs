use serde_ipc::ring::{ShmemMessage, BUFSIZE};
use serde_ipc::sender::{SendAction, SendCursor};

#[test]
fn empty_payload_is_done_at_once() {
    let mut cursor = SendCursor::new(Vec::new());
    assert!(cursor.is_done());
    let mut ring = ShmemMessage::new();
    assert_eq!(cursor.push(&mut ring), SendAction::Finished);
    assert!(ring.empty());
}

#[test]
fn small_payload_goes_in_one_chunk() {
    let mut ring = ShmemMessage::new();
    let mut cursor = SendCursor::new(vec![1, 2, 3, 4]);
    assert!(!cursor.is_done());
    assert_eq!(cursor.push(&mut ring), SendAction::Finished);
    assert!(cursor.is_done());
    let mut out = [0u8; 8];
    assert_eq!(ring.read(&mut out), 4);
    assert_eq!(out, [1, 2, 3, 4, 0, 0, 0, 0]);
}

#[test]
fn large_payload_waits_for_space() {
    let data: Vec<u8> = (0..2500usize).map(|i| (i % 253) as u8).collect();
    let mut ring = ShmemMessage::new();
    let mut cursor = SendCursor::new(data.clone());
    let mut got: Vec<u8> = Vec::new();
    let mut out = vec![0u8; BUFSIZE];

    assert_eq!(cursor.push(&mut ring), SendAction::WaitForSpace);
    assert!(ring.full());
    assert!(!cursor.is_done());
    // no room: the chunk is empty and the cursor stays
    assert_eq!(cursor.push(&mut ring), SendAction::WaitForSpace);
    assert_eq!(ring.read(&mut out), BUFSIZE);
    got.extend_from_slice(&out);

    assert_eq!(cursor.push(&mut ring), SendAction::WaitForSpace);
    assert_eq!(ring.read(&mut out), BUFSIZE);
    got.extend_from_slice(&out);

    assert_eq!(cursor.push(&mut ring), SendAction::Finished);
    assert!(cursor.is_done());
    assert_eq!(ring.read(&mut out), 2500 - 2 * BUFSIZE);
    got.extend_from_slice(&out[..2500 - 2 * BUFSIZE]);
    assert_eq!(got, data);
}

#[test]
fn chunk_is_as_large_as_the_free_room() {
    let mut ring = ShmemMessage::new();
    assert_eq!(ring.write(&vec![0u8; 1020]), 1020);
    let mut cursor = SendCursor::new(vec![1, 2, 3, 4, 5, 6]);
    assert_eq!(cursor.push(&mut ring), SendAction::WaitForSpace);
    let mut skip = vec![0u8; 1020];
    assert_eq!(ring.read(&mut skip), 1020);
    assert_eq!(cursor.push(&mut ring), SendAction::Finished);
    let mut out = [0u8; 6];
    assert_eq!(ring.read(&mut out), 6);
    assert_eq!(out, [1, 2, 3, 4, 5, 6]);
}

#[test]
fn payload_of_exactly_the_capacity_finishes_on_a_full_ring() {
    let mut ring = ShmemMessage::new();
    let mut cursor = SendCursor::new(vec![7u8; BUFSIZE]);
    assert_eq!(cursor.push(&mut ring), SendAction::Finished);
    assert!(ring.full());
    assert!(cursor.is_done());
}
