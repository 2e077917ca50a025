use checkpoint_ts::ipc::{
    check_region_size, dequeue, enqueue_mpsc, enqueue_spsc, initialize_region, queued_count, Channel,
    RingBufferError, SharedMemoryBridge, MAX_PAYLOAD, QUEUE_CAPACITY, TOTAL_SIZE,
};

fn region() -> Vec<u8> {
    let mut r = vec![0xAAu8; TOTAL_SIZE];
    initialize_region(&mut r);
    r
}

#[test]
fn fresh_region_is_empty() {
    let mut r = region();
    for ch in [Channel::RustToTsCommand, Channel::TsToRustStatus, Channel::TsToRustCheckpoint,
        Channel::RustToTsCheckpointResponse] {
        assert_eq!(queued_count(&r, ch), 0);
        assert!(dequeue(&mut r, ch).is_none());
    }
}

#[test]
fn messages_come_out_in_order() {
    let mut r = region();
    enqueue_spsc(&mut r, Channel::RustToTsCommand, b"one").unwrap();
    enqueue_spsc(&mut r, Channel::RustToTsCommand, b"two").unwrap();
    assert_eq!(queued_count(&r, Channel::RustToTsCommand), 2);
    assert_eq!(dequeue(&mut r, Channel::RustToTsCommand).unwrap(), b"one".to_vec());
    assert_eq!(dequeue(&mut r, Channel::RustToTsCommand).unwrap(), b"two".to_vec());
    assert!(dequeue(&mut r, Channel::RustToTsCommand).is_none());
}

#[test]
fn a_ring_holds_one_message_less_than_its_slots() {
    let mut r = region();
    for i in 0..QUEUE_CAPACITY - 1 {
        enqueue_mpsc(&mut r, Channel::TsToRustCheckpoint, &[i as u8]).unwrap();
    }
    assert!(matches!(enqueue_mpsc(&mut r, Channel::TsToRustCheckpoint, b"x"), Err(RingBufferError::QueueFull)));
    assert_eq!(dequeue(&mut r, Channel::TsToRustCheckpoint).unwrap(), vec![0u8]);
    enqueue_mpsc(&mut r, Channel::TsToRustCheckpoint, b"x").unwrap();
}

#[test]
fn rings_do_not_disturb_each_other() {
    let mut r = region();
    enqueue_spsc(&mut r, Channel::TsToRustStatus, b"status").unwrap();
    assert!(dequeue(&mut r, Channel::TsToRustCheckpoint).is_none());
    assert_eq!(queued_count(&r, Channel::RustToTsCommand), 0);
    assert_eq!(dequeue(&mut r, Channel::TsToRustStatus).unwrap(), b"status".to_vec());
}

#[test]
fn oversized_messages_are_refused() {
    let mut r = region();
    let big = vec![1u8; MAX_PAYLOAD + 1];
    assert!(matches!(enqueue_spsc(&mut r, Channel::RustToTsCommand, &big), Err(RingBufferError::MessageTooLarge)));
    let fits = vec![2u8; MAX_PAYLOAD];
    enqueue_spsc(&mut r, Channel::RustToTsCommand, &fits).unwrap();
    assert_eq!(dequeue(&mut r, Channel::RustToTsCommand).unwrap(), fits);
}

#[test]
fn bridge_sends_and_receives() {
    let mut r = region();
    let mut b = SharedMemoryBridge::new();
    assert_eq!(b.next_request_id(), 1);
    assert_eq!(b.next_request_id(), 2);
    b.send_command(&mut r, b"{\"type\":\"load_app\"}").unwrap();
    assert_eq!(dequeue(&mut r, Channel::RustToTsCommand).unwrap(), b"{\"type\":\"load_app\"}".to_vec());
    b.send_checkpoint(&mut r, b"cp").unwrap();
    assert_eq!(b.receive_checkpoint(&mut r).unwrap(), b"cp".to_vec());
    assert!(b.receive_status(&mut r).is_none());
    b.send_checkpoint_response(&mut r, b"resp").unwrap();
    assert_eq!(dequeue(&mut r, Channel::RustToTsCheckpointResponse).unwrap(), b"resp".to_vec());
    assert_eq!(b.debug_queue_state(&r, Channel::RustToTsCommand), "[DEBUG] Channel RustToTsCommand: write_idx=1, read_idx=1, messages_queued=0/16");
}

#[test]
fn errors_describe_themselves() {
    assert_eq!(RingBufferError::QueueFull.describe(), "ring buffer queue is full");
    assert_eq!(RingBufferError::MessageTooLarge.describe(), "message exceeds maximum size");
    assert_eq!(RingBufferError::InvalidChannel.describe(), "invalid channel index");
    assert_eq!(RingBufferError::SerializationError("x".to_string()).describe(), "serialization error: x");
    assert_eq!(RingBufferError::SizeMismatch(3, 4).describe(), "shared memory size mismatch: got 3, expected 4");
    assert!(check_region_size(TOTAL_SIZE).is_ok());
    assert!(matches!(check_region_size(10), Err(RingBufferError::SizeMismatch(10, TOTAL_SIZE))));
    assert_eq!(Channel::TsToRustStatus.index(), 1);
    assert_eq!(Channel::RustToTsCheckpointResponse.name(), "RustToTsCheckpointResponse");
}

#[test]
fn many_messages_keep_their_order_around_the_ring() {
    let mut r = region();
    let ch = Channel::TsToRustStatus;
    let mut next_sent = 0u32;
    let mut next_got = 0u32;
    for round in 0..5 {
        let burst = 3 + round * 3;
        for _ in 0..burst {
            enqueue_spsc(&mut r, ch, &next_sent.to_le_bytes()).unwrap();
            next_sent += 1;
        }
        for _ in 0..burst {
            assert_eq!(dequeue(&mut r, ch).unwrap(), next_got.to_le_bytes().to_vec());
            next_got += 1;
        }
        assert!(dequeue(&mut r, ch).is_none());
    }
    for i in 0..15u8 {
        enqueue_spsc(&mut r, ch, &[i]).unwrap();
    }
    assert!(matches!(enqueue_spsc(&mut r, ch, b"x"), Err(RingBufferError::QueueFull)));
    for i in 0..15u8 {
        assert_eq!(dequeue(&mut r, ch).unwrap(), vec![i]);
    }
    assert!(dequeue(&mut r, ch).is_none());
}

#[test]
fn sending_behind_a_message_still_being_written() {
    let mut r = region();
    let ch = Channel::RustToTsCommand;
    // another producer has claimed slot 0 and not yet marked it ready
    r[0] = 1;
    enqueue_spsc(&mut r, ch, b"a").unwrap();
    assert_eq!(queued_count(&r, ch), 2);
    assert!(dequeue(&mut r, ch).is_none());
    // the other producer finishes an empty message
    r[32] = 1;
    r[36..40].copy_from_slice(&0u32.to_le_bytes());
    assert_eq!(dequeue(&mut r, ch).unwrap(), Vec::<u8>::new());
    assert_eq!(dequeue(&mut r, ch).unwrap(), b"a".to_vec());
    r[0] = 5;
    enqueue_mpsc(&mut r, ch, b"b").unwrap();
    assert_eq!(queued_count(&r, ch), 4);
}

#[test]
fn request_ids_count_up_from_one() {
    let mut b = SharedMemoryBridge::new();
    let ids: Vec<u64> = (0..1000).map(|_| b.next_request_id()).collect();
    for (i, id) in ids.iter().enumerate() {
        assert_eq!(*id, i as u64 + 1);
    }
}
