use server_128::reliable::{append_reliable_chunk, ReliableEventError, MAX_RELIABLE_EVENT_SIZE};

#[test]
fn chunks_are_concatenated() {
    let mut payload = Vec::new();
    assert_eq!(append_reliable_chunk(&mut payload, b"{\"type\":"), Ok(()));
    assert_eq!(append_reliable_chunk(&mut payload, b""), Ok(()));
    assert_eq!(append_reliable_chunk(&mut payload, b"\"x\"}"), Ok(()));
    assert_eq!(payload, b"{\"type\":\"x\"}".to_vec());
}

#[test]
fn payload_may_reach_but_not_exceed_the_limit() {
    assert_eq!(MAX_RELIABLE_EVENT_SIZE, 65536);
    let mut payload = vec![1u8; MAX_RELIABLE_EVENT_SIZE - 4096];
    let chunk = [2u8; 4096];
    assert_eq!(append_reliable_chunk(&mut payload, &chunk), Ok(()));
    assert_eq!(payload.len(), MAX_RELIABLE_EVENT_SIZE);
    assert_eq!(
        append_reliable_chunk(&mut payload, &[3u8]),
        Err(ReliableEventError::TooLarge)
    );
    assert_eq!(payload.len(), MAX_RELIABLE_EVENT_SIZE);
    assert_eq!(payload[MAX_RELIABLE_EVENT_SIZE - 1], 2);
}

#[test]
fn oversized_first_chunk_is_refused() {
    let mut payload = Vec::new();
    let chunk = vec![0u8; MAX_RELIABLE_EVENT_SIZE + 1];
    assert_eq!(
        append_reliable_chunk(&mut payload, &chunk),
        Err(ReliableEventError::TooLarge)
    );
    assert!(payload.is_empty());
}
