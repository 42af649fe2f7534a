//! The endpoint descriptor and its fixed-width control-plane record.
use vstd::prelude::*;
use crate::error::StreamError;

verus! {

/// Bytes in one encoded descriptor: 4 + 2 + 4 + 4 + 8.
pub const DESCRIPTOR_LEN: usize = 22;

/// What one peer publishes so that the other can reach its queue pair and
/// its registered memory.
#[derive(Debug, Clone, Copy, PartialEq, Eq, Structural)]
pub struct EndpointDescriptor {
    pub qp_num: u32,
    pub lid: u16,
    pub psn: u32,
    pub rkey: u32,
    pub raddr: u64,
}

pub open spec fn le16(x: u16) -> Seq<u8> {
    seq![x as u8, (x >> 8u16) as u8]
}

pub open spec fn le32(x: u32) -> Seq<u8> {
    seq![x as u8, (x >> 8u32) as u8, (x >> 16u32) as u8, (x >> 24u32) as u8]
}

pub open spec fn le64(x: u64) -> Seq<u8> {
    seq![
        x as u8, (x >> 8u64) as u8, (x >> 16u64) as u8, (x >> 24u64) as u8,
        (x >> 32u64) as u8, (x >> 40u64) as u8, (x >> 48u64) as u8, (x >> 56u64) as u8,
    ]
}

pub open spec fn le16_at(s: Seq<u8>, i: int) -> u16 {
    (s[i] as u16) | (s[i + 1] as u16) << 8u16
}

pub open spec fn le32_at(s: Seq<u8>, i: int) -> u32 {
    (s[i] as u32) | (s[i + 1] as u32) << 8u32 | (s[i + 2] as u32) << 16u32
        | (s[i + 3] as u32) << 24u32
}

pub open spec fn le64_at(s: Seq<u8>, i: int) -> u64 {
    (s[i] as u64) | (s[i + 1] as u64) << 8u64 | (s[i + 2] as u64) << 16u64
        | (s[i + 3] as u64) << 24u64 | (s[i + 4] as u64) << 32u64 | (s[i + 5] as u64) << 40u64
        | (s[i + 6] as u64) << 48u64 | (s[i + 7] as u64) << 56u64
}

/// The record of five fields, each little-endian, in declaration order.
pub open spec fn record_bytes(f: (u32, u16, u32, u32, u64)) -> Seq<u8> {
    le32(f.0) + le16(f.1) + le32(f.2) + le32(f.3) + le64(f.4)
}

/// The five fields read back from the first `DESCRIPTOR_LEN` bytes of `s`.
pub open spec fn record_fields(s: Seq<u8>) -> (u32, u16, u32, u32, u64) {
    (le32_at(s, 0), le16_at(s, 4), le32_at(s, 6), le32_at(s, 10), le64_at(s, 14))
}

impl EndpointDescriptor {
    pub open spec fn fields(self) -> (u32, u16, u32, u32, u64) {
        (self.qp_num, self.lid, self.psn, self.rkey, self.raddr)
    }

    pub open spec fn from_fields(f: (u32, u16, u32, u32, u64)) -> EndpointDescriptor {
        EndpointDescriptor { qp_num: f.0, lid: f.1, psn: f.2, rkey: f.3, raddr: f.4 }
    }

    /// The bytes that stand for this descriptor on the control channel.
    pub open spec fn wire(self) -> Seq<u8> {
        record_bytes(self.fields())
    }

    /// The descriptor that a received record stands for.
    pub open spec fn of_wire(s: Seq<u8>) -> EndpointDescriptor {
        Self::from_fields(record_fields(s))
    }
}

/// Relies on bincode 1's `serialize` (fixed-width integers, little-endian,
/// no length prefix for a tuple): the fields' bytes one after another.
/// Writing into a fresh `Vec` with no size limit does not fail.
#[verifier::external_body]
fn bincode_encode(f: (u32, u16, u32, u32, u64)) -> (r: Vec<u8>)
    ensures
        r@ == record_bytes(f),
{
    bincode::serialize(&f).unwrap()
}

/// Relies on bincode 1's `deserialize` (same layout, trailing bytes allowed):
/// it fails exactly when the input ends before the record does.
#[verifier::external_body]
fn bincode_decode(b: &[u8]) -> (r: Option<(u32, u16, u32, u32, u64)>)
    ensures
        r.is_some() <==> b@.len() >= 22,
        r.is_some() ==> r.unwrap() == record_fields(b@),
{
    bincode::deserialize::<(u32, u16, u32, u32, u64)>(b).ok()
}

proof fn lemma_le16(x: u16)
    ensures
        le16_at(le16(x), 0) == x,
{
    let (a, b) = (x as u8, (x >> 8u16) as u8);
    assert((a as u16) | (b as u16) << 8u16 == x) by (bit_vector)
        requires
            a == x as u8,
            b == (x >> 8u16) as u8,
    ;
}

proof fn lemma_le32(x: u32)
    ensures
        le32_at(le32(x), 0) == x,
{
    let s = le32(x);
    let (a, b, c, d) = (s[0], s[1], s[2], s[3]);
    assert((a as u32) | (b as u32) << 8u32 | (c as u32) << 16u32 | (d as u32) << 24u32 == x)
        by (bit_vector)
        requires
            a == x as u8,
            b == (x >> 8u32) as u8,
            c == (x >> 16u32) as u8,
            d == (x >> 24u32) as u8,
    ;
}

proof fn lemma_le64(x: u64)
    ensures
        le64_at(le64(x), 0) == x,
{
    let s = le64(x);
    let (b0, b1, b2, b3) = (s[0], s[1], s[2], s[3]);
    let (b4, b5, b6, b7) = (s[4], s[5], s[6], s[7]);
    assert((b0 as u64) | (b1 as u64) << 8u64 | (b2 as u64) << 16u64 | (b3 as u64) << 24u64
        | (b4 as u64) << 32u64 | (b5 as u64) << 40u64 | (b6 as u64) << 48u64 | (b7 as u64)
        << 56u64 == x) by (bit_vector)
        requires
            b0 == x as u8, b1 == (x >> 8u64) as u8, b2 == (x >> 16u64) as u8,
            b3 == (x >> 24u64) as u8, b4 == (x >> 32u64) as u8, b5 == (x >> 40u64) as u8,
            b6 == (x >> 48u64) as u8, b7 == (x >> 56u64) as u8,
    ;
}

/// Reading a descriptor's record back gives the same descriptor, field for
/// field.
pub proof fn lemma_descriptor_round_trip(d: EndpointDescriptor)
    ensures
        d.wire().len() == DESCRIPTOR_LEN,
        EndpointDescriptor::of_wire(d.wire()) == d,
{
    let s = d.wire();
    lemma_le32(d.qp_num);
    lemma_le16(d.lid);
    lemma_le32(d.psn);
    lemma_le32(d.rkey);
    lemma_le64(d.raddr);
    assert(s.subrange(0, 4) =~= le32(d.qp_num));
    assert(s.subrange(4, 6) =~= le16(d.lid));
    assert(s.subrange(6, 10) =~= le32(d.psn));
    assert(s.subrange(10, 14) =~= le32(d.rkey));
    assert(s.subrange(14, 22) =~= le64(d.raddr));
    assert(le32_at(s, 0) == le32_at(s.subrange(0, 4), 0));
    assert(le16_at(s, 4) == le16_at(s.subrange(4, 6), 0));
    assert(le32_at(s, 6) == le32_at(s.subrange(6, 10), 0));
    assert(le32_at(s, 10) == le32_at(s.subrange(10, 14), 0));
    assert(le64_at(s, 14) == le64_at(s.subrange(14, 22), 0));
}

impl EndpointDescriptor {
    pub fn new(qp_num: u32, lid: u16, psn: u32, rkey: u32, raddr: u64) -> (r: EndpointDescriptor)
        ensures
            r == (EndpointDescriptor { qp_num, lid, psn, rkey, raddr }),
    {
        EndpointDescriptor { qp_num, lid, psn, rkey, raddr }
    }

    /// The record that goes out on the control channel.
    pub fn encode(&self) -> (r: Vec<u8>)
        ensures
            r@ == self.wire(),
            r@.len() == DESCRIPTOR_LEN,
    {
        let r = bincode_encode((self.qp_num, self.lid, self.psn, self.rkey, self.raddr));
        proof {
            lemma_descriptor_round_trip(*self);
        }
        r
    }

    /// The descriptor in the first `DESCRIPTOR_LEN` bytes of `bytes`; a
    /// shorter input is a `Handshake` failure.
    pub fn decode(bytes: &[u8]) -> (r: Result<EndpointDescriptor, StreamError>)
        ensures
            r.is_ok() <==> bytes@.len() >= DESCRIPTOR_LEN,
            r.is_ok() ==> r.unwrap() == EndpointDescriptor::of_wire(bytes@),
            r.is_err() ==> r == Err::<EndpointDescriptor, StreamError>(StreamError::Handshake),
    {
        match bincode_decode(bytes) {
            Some(f) => Ok(EndpointDescriptor { qp_num: f.0, lid: f.1, psn: f.2, rkey: f.3, raddr: f.4 }),
            None => Err(StreamError::Handshake),
        }
    }
}

} // verus!
