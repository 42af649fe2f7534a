use rdma_stream::error::StreamError;
use rdma_stream::region::Region;

#[test]
fn allocate_is_zeroed_and_keeps_key() {
    let r = Region::allocate(5, 0xabcd, 0x7000).unwrap();
    assert_eq!(r.len(), 5);
    assert_eq!(r.as_slice(), &[0u8; 5]);
    assert_eq!(r.rkey(), 0xabcd);
    assert_eq!(r.addr(), 0x7000);
}

#[test]
fn allocate_zero_fails() {
    assert!(matches!(Region::allocate(0, 1, 2), Err(StreamError::Allocation)));
}

#[test]
fn write_then_read_back_for_many_lengths() {
    for len in [1usize, 2, 7, 8, 64, 1000] {
        let mut r = Region::allocate(len, 1, 2).unwrap();
        let content: Vec<u8> = (0..len).map(|i| (i * 31 + 7) as u8).collect();
        assert_eq!(r.write_range(0, &content), Ok(()));
        assert_eq!(r.read_range(0, len), Ok(content.clone()));
        for (i, b) in content.iter().enumerate() {
            assert_eq!(r.read(i), Ok(*b));
        }
    }
}

#[test]
fn writes_out_of_bounds_fail_and_change_nothing() {
    let mut r = Region::allocate(4, 1, 2).unwrap();
    assert_eq!(r.write(4, 1), Err(StreamError::OutOfBounds));
    assert_eq!(r.write_range(2, &[1, 2, 3]), Err(StreamError::OutOfBounds));
    assert_eq!(r.write_range(usize::MAX, &[1]), Err(StreamError::OutOfBounds));
    assert_eq!(r.as_slice(), &[0, 0, 0, 0]);
    assert_eq!(r.read(4), Err(StreamError::OutOfBounds));
    assert_eq!(r.read_range(3, 2), Err(StreamError::OutOfBounds));
}

#[test]
fn write_range_at_offset() {
    let mut r = Region::allocate(6, 1, 2).unwrap();
    assert_eq!(r.write(0, 9), Ok(()));
    assert_eq!(r.write_range(2, &[4, 5]), Ok(()));
    assert_eq!(r.as_slice(), &[9, 0, 4, 5, 0, 0]);
    assert_eq!(r.read_range(2, 2), Ok(vec![4, 5]));
}
