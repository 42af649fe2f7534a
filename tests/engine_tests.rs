use rdma_stream::descriptor::EndpointDescriptor;
use rdma_stream::engine::{any_with_tag, Completion, QpState, QueuePair, WorkKind};
use rdma_stream::error::StreamError;

fn ok(tag: u64, kind: WorkKind) -> Completion {
    Completion { tag, success: true, kind }
}

fn connected(len: usize) -> QueuePair {
    let mut qp = QueuePair::new(len);
    qp.handshake(EndpointDescriptor::new(1, 2, 3, 4, 5)).unwrap();
    qp
}

#[test]
fn handshake_moves_to_ready_to_send_once() {
    let mut qp = QueuePair::new(16);
    assert_eq!(qp.state(), QpState::Init);
    let peer = EndpointDescriptor::new(9, 8, 7, 6, 5);
    assert_eq!(qp.handshake(peer), Ok(()));
    assert_eq!(qp.state(), QpState::ReadyToSend);
    assert_eq!(qp.remote(), Some(peer));
    assert_eq!(qp.handshake(peer), Err(StreamError::InvalidState));
}

#[test]
fn posting_before_connection_is_invalid_state() {
    let mut qp = QueuePair::new(16);
    assert_eq!(qp.post_send(0, 4, 1), Err(StreamError::InvalidState));
    assert_eq!(qp.post_receive(0, 4, 1), Err(StreamError::InvalidState));
    assert!(qp.pending().is_empty());
}

#[test]
fn posting_checks_range_and_tag() {
    let mut qp = connected(16);
    assert_eq!(qp.post_send(10, 7, 1), Err(StreamError::OutOfBounds));
    assert_eq!(qp.post_send(usize::MAX, 2, 1), Err(StreamError::OutOfBounds));
    let req = qp.post_send(0, 16, 1).unwrap();
    assert_eq!(req.kind, WorkKind::Send);
    assert_eq!(req.len, 16);
    assert_eq!(qp.post_receive(0, 4, 1), Err(StreamError::InvalidState));
    let rd = qp.post_read(4, 4, 0x1000, 77, 2).unwrap();
    assert_eq!((rd.remote_addr, rd.remote_key, rd.kind), (0x1000, 77, WorkKind::Read));
    assert_eq!(qp.pending(), vec![1, 2]);
}

#[test]
fn unsignaled_write_is_not_pending() {
    let mut qp = connected(8);
    let w = qp.post_write(0, 8, 0x10, 3, 5, false).unwrap();
    assert!(!w.signaled);
    assert!(qp.pending().is_empty());
    qp.post_write(0, 8, 0x10, 3, 6, true).unwrap();
    assert_eq!(qp.pending(), vec![6]);
}

#[test]
fn one_unsignaled_write_per_tag_until_a_send_side_completion() {
    let mut qp = connected(8);
    qp.post_write(0, 8, 0x10, 3, 5, false).unwrap();
    assert_eq!(qp.post_write(0, 8, 0x10, 3, 5, false), Err(StreamError::InvalidState));
    qp.post_write(0, 8, 0x10, 3, 7, false).unwrap();
    qp.post_receive(0, 8, 1).unwrap();
    // A receive completion says nothing about the send queue.
    assert_eq!(qp.reap(&[ok(1, WorkKind::Receive)]), Ok(vec![1]));
    assert_eq!(qp.post_write(0, 8, 0x10, 3, 5, false), Err(StreamError::InvalidState));
    qp.post_write(0, 8, 0x10, 3, 6, true).unwrap();
    assert_eq!(qp.reap(&[ok(6, WorkKind::Write)]), Ok(vec![6]));
    assert!(qp.post_write(0, 8, 0x10, 3, 5, false).is_ok());
}

#[test]
fn completions_match_regardless_of_batch_size() {
    let tags = [10u64, 20, 30, 40];
    let mut one_by_one = connected(8);
    let mut all_at_once = connected(8);
    for t in tags {
        one_by_one.post_send(0, 8, t).unwrap();
        all_at_once.post_send(0, 8, t).unwrap();
    }
    let mut seen = Vec::new();
    // Completions arrive out of order, one per poll, with an empty poll between.
    for t in [30u64, 10, 40, 20] {
        assert_eq!(one_by_one.reap(&[]), Ok(vec![]));
        seen.extend(one_by_one.reap(&[ok(t, WorkKind::Send)]).unwrap());
    }
    seen.sort();
    assert_eq!(seen, vec![10, 20, 30, 40]);
    assert!(one_by_one.pending().is_empty());

    let batch: Vec<Completion> = [30u64, 10, 40, 20].iter().map(|t| ok(*t, WorkKind::Send)).collect();
    assert_eq!(all_at_once.reap(&batch), Ok(vec![10, 20, 30, 40]));
    assert!(all_at_once.pending().is_empty());
}

#[test]
fn unknown_and_repeated_tags_are_ignored() {
    let mut qp = connected(8);
    qp.post_send(0, 8, 1).unwrap();
    assert_eq!(qp.reap(&[ok(99, WorkKind::Send)]), Ok(vec![]));
    assert_eq!(qp.reap(&[ok(1, WorkKind::Send), ok(1, WorkKind::Send)]), Ok(vec![1]));
    assert_eq!(qp.reap(&[ok(1, WorkKind::Send)]), Ok(vec![]));
}

#[test]
fn failed_completion_fails_the_pair() {
    let mut qp = connected(8);
    qp.post_send(0, 8, 1).unwrap();
    let bad = Completion { tag: 1, success: false, kind: WorkKind::Send };
    assert_eq!(qp.reap(&[bad]), Err(StreamError::Completion));
    assert_eq!(qp.state(), QpState::Failed);
    assert_eq!(qp.pending(), vec![1]);
    assert_eq!(qp.post_send(0, 8, 2), Err(StreamError::InvalidState));
}

#[test]
fn any_with_tag_finds_entries() {
    let batch = [ok(3, WorkKind::Receive), ok(4, WorkKind::Write)];
    assert!(any_with_tag(&batch, 4));
    assert!(!any_with_tag(&batch, 5));
    assert!(!any_with_tag(&[], 3));
}
