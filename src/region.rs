//! An owned, zero-initialised buffer that stands for a registered memory
//! region: bounds-checked byte access, with the protection key and base
//! address kept only for publishing to the peer.
use vstd::prelude::*;
use crate::error::StreamError;

verus! {

/// `s` with the bytes from `off` on replaced by `c`.
pub open spec fn spliced(s: Seq<u8>, off: int, c: Seq<u8>) -> Seq<u8> {
    s.subrange(0, off) + c + s.subrange(off + c.len(), s.len() as int)
}

pub struct Region {
    bytes: Vec<u8>,
    rkey: u32,
    addr: u64,
}

impl View for Region {
    type V = Seq<u8>;

    closed spec fn view(&self) -> Seq<u8> {
        self.bytes@
    }
}

impl Region {
    pub closed spec fn key_spec(&self) -> u32 {
        self.rkey
    }

    pub closed spec fn addr_spec(&self) -> u64 {
        self.addr
    }

    /// A region of exactly `length` zero bytes under the given key and base
    /// address. A region of no bytes cannot be registered.
    pub fn allocate(length: usize, rkey: u32, addr: u64) -> (r: Result<Region, StreamError>)
        ensures
            r.is_err() <==> length == 0,
            r.is_err() ==> r == Err::<Region, StreamError>(StreamError::Allocation),
            r.is_ok() ==> r.unwrap()@ == Seq::new(length as nat, |_i: int| 0u8)
                && r.unwrap().key_spec() == rkey && r.unwrap().addr_spec() == addr,
    {
        if length == 0 {
            return Err(StreamError::Allocation);
        }
        let bytes: Vec<u8> = vec![0u8; length];
        assert(bytes@ =~= Seq::new(length as nat, |_i: int| 0u8));
        Ok(Region { bytes, rkey, addr })
    }

    pub fn len(&self) -> (r: usize)
        ensures
            r == self@.len(),
    {
        self.bytes.len()
    }

    /// The protection key the peer must present.
    pub fn rkey(&self) -> (r: u32)
        ensures
            r == self.key_spec(),
    {
        self.rkey
    }

    /// The base address the peer targets.
    pub fn addr(&self) -> (r: u64)
        ensures
            r == self.addr_spec(),
    {
        self.addr
    }

    /// All the region's bytes, for handing to the transport.
    pub fn as_slice(&self) -> (r: &[u8])
        ensures
            r@ == self@,
    {
        self.bytes.as_slice()
    }

    pub fn read(&self, i: usize) -> (r: Result<u8, StreamError>)
        ensures
            r.is_ok() <==> i < self@.len(),
            r.is_ok() ==> r.unwrap() == self@[i as int],
            r.is_err() ==> r == Err::<u8, StreamError>(StreamError::OutOfBounds),
    {
        if i < self.bytes.len() {
            Ok(self.bytes[i])
        } else {
            Err(StreamError::OutOfBounds)
        }
    }

    pub fn write(&mut self, i: usize, b: u8) -> (r: Result<(), StreamError>)
        ensures
            r.is_ok() <==> i < old(self)@.len(),
            r.is_ok() ==> final(self)@ == old(self)@.update(i as int, b),
            r.is_err() ==> r == Err::<(), StreamError>(StreamError::OutOfBounds)
                && final(self)@ == old(self)@,
            final(self).key_spec() == old(self).key_spec(),
            final(self).addr_spec() == old(self).addr_spec(),
    {
        if i < self.bytes.len() {
            self.bytes.set(i, b);
            Ok(())
        } else {
            Err(StreamError::OutOfBounds)
        }
    }

    /// Writes `src` at `offset`; fails, writing nothing, when it would run
    /// past the end.
    pub fn write_range(&mut self, offset: usize, src: &[u8]) -> (r: Result<(), StreamError>)
        ensures
            r.is_ok() <==> offset + src@.len() <= old(self)@.len(),
            r.is_ok() ==> final(self)@ == spliced(old(self)@, offset as int, src@),
            r.is_err() ==> r == Err::<(), StreamError>(StreamError::OutOfBounds)
                && final(self)@ == old(self)@,
            final(self).key_spec() == old(self).key_spec(),
            final(self).addr_spec() == old(self).addr_spec(),
    {
        if offset > self.bytes.len() || src.len() > self.bytes.len() - offset {
            return Err(StreamError::OutOfBounds);
        }
        let mut i: usize = 0;
        while i < src.len()
            invariant
                offset + src@.len() <= self.bytes@.len() <= usize::MAX,
                self.bytes@.len() == old(self).bytes@.len(),
                self.rkey == old(self).rkey,
                self.addr == old(self).addr,
                i <= src@.len(),
                forall|k: int| 0 <= k < i ==> self.bytes@[offset + k] == src@[k],
                forall|k: int|
                    0 <= k < self.bytes@.len() && !(offset <= k < offset + i) ==> self.bytes@[k]
                        == old(self).bytes@[k],
            decreases src@.len() - i,
        {
            self.bytes.set(offset + i, src[i]);
            i = i + 1;
        }
        assert(self.bytes@ =~= spliced(old(self)@, offset as int, src@));
        Ok(())
    }

    /// The `len` bytes from `offset`; fails when they run past the end.
    pub fn read_range(&self, offset: usize, len: usize) -> (r: Result<Vec<u8>, StreamError>)
        ensures
            r.is_ok() <==> offset + len <= self@.len(),
            r.is_ok() ==> r.unwrap()@ == self@.subrange(offset as int, offset + len),
            r.is_err() ==> r == Err::<Vec<u8>, StreamError>(StreamError::OutOfBounds),
    {
        if offset > self.bytes.len() || len > self.bytes.len() - offset {
            return Err(StreamError::OutOfBounds);
        }
        let mut out: Vec<u8> = Vec::new();
        let mut i: usize = 0;
        while i < len
            invariant
                offset + len <= self.bytes@.len() <= usize::MAX,
                i <= len,
                out@ == self.bytes@.subrange(offset as int, offset + i),
            decreases len - i,
        {
            out.push(self.bytes[offset + i]);
            i = i + 1;
            assert(out@ =~= self.bytes@.subrange(offset as int, offset + i));
        }
        Ok(out)
    }
}

/// Reading back the bytes just written at an offset gives exactly what was
/// written, and the region keeps its length.
pub proof fn lemma_write_then_read(before: Seq<u8>, offset: int, content: Seq<u8>)
    requires
        0 <= offset,
        offset + content.len() <= before.len(),
    ensures
        spliced(before, offset, content).len() == before.len(),
        spliced(before, offset, content).subrange(offset, offset + content.len()) == content,
{
    assert(spliced(before, offset, content).subrange(offset, offset + content.len()) =~= content);
}

} // verus!
