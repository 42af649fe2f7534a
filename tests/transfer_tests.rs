use rdma_stream::codec::network_to_u64;
use rdma_stream::descriptor::EndpointDescriptor;
use rdma_stream::engine::{Completion, QueuePair, WorkKind};
use rdma_stream::error::StreamError;
use rdma_stream::region::Region;
use rdma_stream::transfer::{
    frame_bytes, is_frame_file, latency_nanos, load_frames, next_frame_index, strip_header,
    Consumer, FrameSet, Producer,
};

fn connected(len: usize) -> QueuePair {
    let mut qp = QueuePair::new(len);
    qp.handshake(EndpointDescriptor::new(1, 1, 0, 1, 0)).unwrap();
    qp
}

fn done(tag: u64, kind: WorkKind) -> Completion {
    Completion { tag, success: true, kind }
}

#[test]
fn frame_bytes_layout() {
    assert_eq!(frame_bytes(258, &[7, 8]), vec![0, 0, 0, 0, 0, 0, 1, 2, 7, 8]);
}

#[test]
fn latency_is_exact_difference() {
    assert_eq!(latency_nanos(1_000, 400), 600);
    assert_eq!(latency_nanos(10, 20), -10);
    assert_eq!(latency_nanos(u64::MAX, 0), u64::MAX as i128);
    assert_eq!(latency_nanos(0, u64::MAX), -(u64::MAX as i128));
}

#[test]
fn frame_file_selection() {
    assert!(is_frame_file(true, b"RGB8", b"RGB8"));
    assert!(!is_frame_file(false, b"RGB8", b"RGB8"));
    assert!(!is_frame_file(true, b"RGB", b"RGB8"));
    assert!(!is_frame_file(true, b"rgb8", b"RGB8"));
}

#[test]
fn header_is_stripped() {
    let mut file = vec![0xeeu8; 32];
    file.extend([1, 2, 3]);
    assert_eq!(strip_header(&file), Ok(vec![1, 2, 3]));
    assert_eq!(strip_header(&[0u8; 32]), Ok(vec![]));
    assert_eq!(strip_header(&[0u8; 31]), Err(StreamError::Configuration));
}

#[test]
fn empty_frame_set_is_configuration_error() {
    assert!(matches!(FrameSet::new(vec![]), Err(StreamError::Configuration)));
    assert!(matches!(load_frames(vec![]), Err(StreamError::Configuration)));
}

#[test]
fn mismatched_frames_are_buffer_size_error() {
    assert!(matches!(FrameSet::new(vec![vec![1, 2], vec![3]]), Err(StreamError::BufferSize)));
    let a = [vec![0u8; 32], vec![1, 2]].concat();
    let b = [vec![0u8; 32], vec![3]].concat();
    assert!(matches!(load_frames(vec![a, b]), Err(StreamError::BufferSize)));
    assert!(matches!(load_frames(vec![vec![0u8; 40], vec![0u8; 3]]), Err(StreamError::Configuration)));
}

#[test]
fn load_frames_keeps_payloads() {
    let a = [vec![0u8; 32], vec![1, 2]].concat();
    let b = [vec![9u8; 32], vec![3, 4]].concat();
    let set = load_frames(vec![a, b]).unwrap();
    assert_eq!(set.len(), 2);
    assert_eq!(set.frame_len(), 2);
    assert_eq!(set.frame(0), &[1, 2]);
    assert_eq!(set.frame(1), &[3, 4]);
}

#[test]
fn round_robin_wraps() {
    assert_eq!(next_frame_index(0, 3), 1);
    assert_eq!(next_frame_index(2, 3), 0);
    assert_eq!(next_frame_index(0, 1), 0);
    assert_eq!(next_frame_index(usize::MAX - 1, usize::MAX), 0);
    assert_eq!(next_frame_index(usize::MAX - 2, usize::MAX), usize::MAX - 1);
}

#[test]
fn single_frame_repeats_every_cycle() {
    let mut idx = 0usize;
    for _ in 0..10_000 {
        idx = next_frame_index(idx, 1);
        assert_eq!(idx, 0);
    }
}

#[test]
fn producer_rejects_region_of_wrong_size() {
    let set = FrameSet::new(vec![vec![1, 2, 3]]).unwrap();
    assert!(matches!(Producer::new(set, 10, 1), Err(StreamError::BufferSize)));
    let set = FrameSet::new(vec![vec![1, 2, 3]]).unwrap();
    assert!(matches!(Producer::new(set, 3, 1), Err(StreamError::BufferSize)));
}

#[test]
fn five_cycles_of_one_frame_reach_the_consumer() {
    let tag = 9_926_239_128_092_127_829u64;
    let set = FrameSet::new(vec![vec![1, 2, 3]]).unwrap();
    let mut producer = Producer::new(set, 11, tag).unwrap();
    let mut server_region = Region::allocate(11, 1, 0x100).unwrap();
    let mut server_qp = connected(11);
    let mut consumer = Consumer::new(tag);
    let mut client_region = Region::allocate(11, 2, 0x200).unwrap();
    let mut client_qp = connected(11);

    let mut stamps = Vec::new();
    // At 10 Hz the cycles are stamped 100 ms apart.
    for cycle in 0..5u64 {
        let ts = 1_000_000_000 + cycle * 100_000_000;
        consumer.arm(&mut client_qp).unwrap();
        let req = producer.begin_cycle(ts, &mut server_region, &mut server_qp).unwrap();
        assert_eq!((req.offset, req.len), (0, 11));
        assert_eq!(
            producer.begin_cycle(ts, &mut server_region, &mut server_qp),
            Err(StreamError::InvalidState)
        );
        // The fabric delivers the send into the armed receive.
        client_region.write_range(0, server_region.as_slice()).unwrap();
        let delay = consumer
            .complete(&mut client_qp, &[done(tag, WorkKind::Receive)], client_region.as_slice(), ts + 5)
            .unwrap();
        assert_eq!(delay, Some(5));
        assert_eq!(producer.complete(&mut server_qp, &[]), Ok(false));
        assert_eq!(producer.complete(&mut server_qp, &[done(tag, WorkKind::Send)]), Ok(true));
        assert_eq!(producer.current_index(), 0);
        assert_eq!(client_region.read_range(8, 3), Ok(vec![1, 2, 3]));
        stamps.push(network_to_u64(client_region.as_slice()).unwrap());
    }
    assert_eq!(stamps.len(), 5);
    assert!(stamps.windows(2).all(|w| w[0] < w[1]));
}

#[test]
fn producer_cycles_through_frames() {
    let set = FrameSet::new(vec![vec![1], vec![2], vec![3]]).unwrap();
    let mut producer = Producer::new(set, 9, 5).unwrap();
    let mut region = Region::allocate(9, 1, 0).unwrap();
    let mut qp = connected(9);
    let mut seen = Vec::new();
    for ts in 0..7u64 {
        producer.begin_cycle(ts, &mut region, &mut qp).unwrap();
        seen.push(region.read(8).unwrap());
        assert_eq!(producer.complete(&mut qp, &[done(5, WorkKind::Send)]), Ok(true));
    }
    assert_eq!(seen, vec![1, 2, 3, 1, 2, 3, 1]);
}

#[test]
fn late_receive_does_not_match_an_earlier_send() {
    let tag = 4u64;
    let mut consumer = Consumer::new(tag);
    let mut qp = connected(16);
    let frame = [0u8; 16];
    // A completion for the tag shows up before any receive was armed: it is
    // not counted, and the consumer keeps waiting for its own receive.
    assert_eq!(consumer.complete(&mut qp, &[done(tag, WorkKind::Receive)], &frame, 10), Ok(None));
    assert!(!consumer.armed());
    consumer.arm(&mut qp).unwrap();
    assert_eq!(consumer.complete(&mut qp, &[], &frame, 10), Ok(None));
    assert!(consumer.armed());
    assert_eq!(consumer.arm(&mut qp), Err(StreamError::InvalidState));
    assert_eq!(consumer.complete(&mut qp, &[done(tag, WorkKind::Receive)], &frame, 10), Ok(Some(10)));
    assert!(!consumer.armed());
}

#[test]
fn consumer_short_frame_is_buffer_size_error() {
    let mut consumer = Consumer::new(1);
    let mut qp = connected(4);
    consumer.arm(&mut qp).unwrap();
    assert_eq!(
        consumer.complete(&mut qp, &[done(1, WorkKind::Receive)], &[1, 2, 3, 4], 0),
        Err(StreamError::BufferSize)
    );
}

#[test]
fn failed_send_surfaces_completion_error() {
    let set = FrameSet::new(vec![vec![1]]).unwrap();
    let mut producer = Producer::new(set, 9, 5).unwrap();
    let mut region = Region::allocate(9, 1, 0).unwrap();
    let mut qp = connected(9);
    producer.begin_cycle(1, &mut region, &mut qp).unwrap();
    let bad = Completion { tag: 5, success: false, kind: WorkKind::Send };
    assert_eq!(producer.complete(&mut qp, &[bad]), Err(StreamError::Completion));
    assert!(producer.in_flight());
}
