//! Fixed-width byte encodings: the big-endian frame timestamp and the
//! little-endian control-plane record.
use vstd::prelude::*;
use byteorder::{BigEndian, ByteOrder};

verus! {

/// Width in bytes of the timestamp that heads every frame.
pub const TIMESTAMP_LEN: usize = 8;

/// The eight bytes of `v`, most significant first.
pub open spec fn be_bytes(v: u64) -> Seq<u8> {
    seq![
        (v >> 56u64) as u8, (v >> 48u64) as u8, (v >> 40u64) as u8, (v >> 32u64) as u8,
        (v >> 24u64) as u8, (v >> 16u64) as u8, (v >> 8u64) as u8, v as u8,
    ]
}

/// The integer whose big-endian form is the first eight bytes of `s`.
pub open spec fn be_value(s: Seq<u8>) -> u64
    recommends
        s.len() >= 8,
{
    (s[0] as u64) << 56u64 | (s[1] as u64) << 48u64 | (s[2] as u64) << 40u64
        | (s[3] as u64) << 32u64 | (s[4] as u64) << 24u64 | (s[5] as u64) << 16u64
        | (s[6] as u64) << 8u64 | (s[7] as u64)
}

/// Decoding the big-endian form of a timestamp gives the timestamp back.
pub proof fn lemma_timestamp_round_trip(v: u64)
    ensures
        be_bytes(v).len() == 8,
        be_value(be_bytes(v)) == v,
{
    let s = be_bytes(v);
    let (b0, b1, b2, b3) = (s[0], s[1], s[2], s[3]);
    let (b4, b5, b6, b7) = (s[4], s[5], s[6], s[7]);
    assert(b0 == (v >> 56u64) as u8 && b1 == (v >> 48u64) as u8 && b2 == (v >> 40u64) as u8
        && b3 == (v >> 32u64) as u8 && b4 == (v >> 24u64) as u8 && b5 == (v >> 16u64) as u8
        && b6 == (v >> 8u64) as u8 && b7 == v as u8);
    assert((b0 as u64) << 56u64 | (b1 as u64) << 48u64 | (b2 as u64) << 40u64
        | (b3 as u64) << 32u64 | (b4 as u64) << 24u64 | (b5 as u64) << 16u64
        | (b6 as u64) << 8u64 | (b7 as u64) == v) by (bit_vector)
        requires
            b0 == (v >> 56u64) as u8, b1 == (v >> 48u64) as u8, b2 == (v >> 40u64) as u8,
            b3 == (v >> 32u64) as u8, b4 == (v >> 24u64) as u8, b5 == (v >> 16u64) as u8,
            b6 == (v >> 8u64) as u8, b7 == v as u8,
    ;
}

/// Relies on byteorder's `BigEndian::write_u64`: it stores `n.to_be_bytes()`
/// in the first eight bytes of the buffer (and panics on a shorter one).
#[verifier::external_body]
fn be_write_u64(buf: &mut [u8], n: u64)
    requires
        old(buf)@.len() >= 8,
    ensures
        final(buf)@ == be_bytes(n) + old(buf)@.subrange(8, old(buf)@.len() as int),
{
    BigEndian::write_u64(buf, n)
}

/// Relies on byteorder's `BigEndian::read_u64`: it reads `u64::from_be_bytes`
/// of the first eight bytes of the buffer (and panics on a shorter one).
#[verifier::external_body]
fn be_read_u64(buf: &[u8]) -> (r: u64)
    requires
        buf@.len() >= 8,
    ensures
        r == be_value(buf@),
{
    BigEndian::read_u64(buf)
}

/// The big-endian form of a timestamp, as it heads a frame.
pub fn u64_to_network(val: u64) -> (r: Vec<u8>)
    ensures
        r@ == be_bytes(val),
{
    let mut data: Vec<u8> = vec![0u8; TIMESTAMP_LEN];
    be_write_u64(data.as_mut_slice(), val);
    assert(data@ =~= be_bytes(val));
    data
}

/// Reads the timestamp at the head of `data`; `None` when fewer than eight
/// bytes are there.
pub fn network_to_u64(data: &[u8]) -> (r: Option<u64>)
    ensures
        r.is_some() <==> data@.len() >= 8,
        r.is_some() ==> r.unwrap() == be_value(data@),
{
    if data.len() < TIMESTAMP_LEN {
        None
    } else {
        Some(be_read_u64(data))
    }
}

/// Copies the first `nelems` bytes of `src` over the first `nelems` bytes of `dst`.
pub fn write_to(dst: &mut [u8], src: &[u8], nelems: usize)
    requires
        nelems <= old(dst)@.len(),
        nelems <= src@.len(),
    ensures
        final(dst)@ == src@.subrange(0, nelems as int) + old(dst)@.subrange(
            nelems as int,
            old(dst)@.len() as int,
        ),
{
    let mut i: usize = 0;
    while i < nelems
        invariant
            i <= nelems,
            nelems <= dst@.len(),
            nelems <= src@.len(),
            dst@.len() == old(dst)@.len(),
            forall|k: int| 0 <= k < i ==> dst@[k] == src@[k],
            forall|k: int| i <= k < dst@.len() ==> dst@[k] == old(dst)@[k],
        decreases nelems - i,
    {
        dst[i] = src[i];
        i = i + 1;
    }
    assert(dst@ =~= src@.subrange(0, nelems as int) + old(dst)@.subrange(
        nelems as int,
        old(dst)@.len() as int,
    ));
}

} // verus!
