use rdma_stream::descriptor::{EndpointDescriptor, DESCRIPTOR_LEN};
use rdma_stream::error::StreamError;
use rdma_stream::handshake::{Exchange, Role, Step};

fn send_bytes(e: &Exchange) -> Vec<u8> {
    match e.next_step() {
        Step::Send(b) => b,
        other => panic!("expected a send, got {:?}", other),
    }
}

#[test]
fn exchange_round_trip_between_peers() {
    let da = EndpointDescriptor::new(11, 1, 100, 0xaaaa, 0x1000);
    let db = EndpointDescriptor::new(22, 2, 200, 0xbbbb, 0x2000);
    let mut a = Exchange::new(Role::Connector, da);
    let mut b = Exchange::new(Role::Listener, db);

    // The listener reads first; the connector writes first.
    assert_eq!(b.next_step(), Step::Receive(DESCRIPTOR_LEN));
    let wa = send_bytes(&a);
    assert_eq!(a.on_sent(), Ok(()));
    assert_eq!(a.next_step(), Step::Receive(DESCRIPTOR_LEN));

    // Deliver in two pieces to exercise partial reads.
    assert_eq!(b.on_received(&wa[..5]), Ok(()));
    assert_eq!(b.next_step(), Step::Receive(DESCRIPTOR_LEN - 5));
    assert_eq!(b.on_received(&wa[5..]), Ok(()));

    let wb = send_bytes(&b);
    assert_eq!(b.on_sent(), Ok(()));
    assert_eq!(b.next_step(), Step::Done);
    assert_eq!(a.on_received(&wb), Ok(()));
    assert_eq!(a.next_step(), Step::Done);

    assert_eq!(a.remote(), Some(db));
    assert_eq!(b.remote(), Some(da));
}

#[test]
fn exchange_stream_closed_after_three_bytes() {
    let da = EndpointDescriptor::new(1, 2, 3, 4, 5);
    let db = EndpointDescriptor::new(6, 7, 8, 9, 10);
    let wire = Exchange::new(Role::Connector, da);
    let bytes = send_bytes(&wire);
    let mut b = Exchange::new(Role::Listener, db);
    assert_eq!(b.on_received(&bytes[..3]), Ok(()));
    assert_eq!(b.on_received(&[]), Err(StreamError::Handshake));
    assert_eq!(b.next_step(), Step::Failed);
    assert_eq!(b.remote(), None);
}

#[test]
fn exchange_rejects_overlong_record() {
    let mut b = Exchange::new(Role::Listener, EndpointDescriptor::new(0, 0, 0, 0, 0));
    assert_eq!(b.on_received(&[0u8; DESCRIPTOR_LEN + 1]), Err(StreamError::Handshake));
}

#[test]
fn exchange_out_of_order_is_invalid_state() {
    let mut a = Exchange::new(Role::Connector, EndpointDescriptor::new(0, 0, 0, 0, 0));
    assert_eq!(a.on_received(&[1, 2, 3]), Err(StreamError::InvalidState));
    let mut b = Exchange::new(Role::Listener, EndpointDescriptor::new(0, 0, 0, 0, 0));
    assert_eq!(b.on_sent(), Err(StreamError::InvalidState));
    assert_eq!(b.remote(), None);
}
