//! The frame set and the two ends of the transfer loop: the producer that
//! stamps and sends one frame per cycle, and the consumer that receives a
//! frame and measures its delay.
use vstd::prelude::*;
use crate::codec::{be_bytes, be_value, network_to_u64, u64_to_network, TIMESTAMP_LEN};
use crate::engine::{contains_tag, reaped, Completion, QpState, QueuePair, WorkKind, WorkRequest};
use crate::error::StreamError;
use crate::region::{spliced, Region};

verus! {

/// Bytes of header at the start of each frame file, dropped on loading.
pub const FILE_HEADER_LEN: usize = 32;

/// The bytes that travel for one frame: its timestamp, then its payload.
pub open spec fn frame_wire(ts: u64, payload: Seq<u8>) -> Seq<u8> {
    be_bytes(ts) + payload
}

/// The timestamp followed by the payload, as written into the region.
pub fn frame_bytes(ts: u64, payload: &[u8]) -> (r: Vec<u8>)
    ensures
        r@ == frame_wire(ts, payload@),
{
    let mut out = u64_to_network(ts);
    let mut i: usize = 0;
    while i < payload.len()
        invariant
            i <= payload@.len(),
            out@ == be_bytes(ts) + payload@.subrange(0, i as int),
        decreases payload@.len() - i,
    {
        out.push(payload[i]);
        i = i + 1;
        assert(out@ =~= be_bytes(ts) + payload@.subrange(0, i as int));
    }
    assert(payload@.subrange(0, payload@.len() as int) =~= payload@);
    out
}

/// Whether a directory entry is a frame file: a plain file whose extension
/// is the one asked for.
pub fn is_frame_file(is_file: bool, extension: &[u8], wanted: &[u8]) -> (r: bool)
    ensures
        r == (is_file && extension@ == wanted@),
{
    if !is_file || extension.len() != wanted.len() {
        return false;
    }
    let mut i: usize = 0;
    while i < extension.len()
        invariant
            extension@.len() == wanted@.len(),
            i <= extension@.len(),
            forall|k: int| 0 <= k < i ==> extension@[k] == wanted@[k],
        decreases extension@.len() - i,
    {
        if extension[i] != wanted[i] {
            return false;
        }
        i = i + 1;
    }
    assert(extension@ =~= wanted@);
    true
}

/// The payload of a frame file: what follows its header. A file shorter
/// than the header is a `Configuration` failure.
pub fn strip_header(data: &[u8]) -> (r: Result<Vec<u8>, StreamError>)
    ensures
        r.is_ok() <==> data@.len() >= FILE_HEADER_LEN,
        r.is_ok() ==> r.unwrap()@ == data@.subrange(FILE_HEADER_LEN as int, data@.len() as int),
        r.is_err() ==> r == Err::<Vec<u8>, StreamError>(StreamError::Configuration),
{
    if data.len() < FILE_HEADER_LEN {
        return Err(StreamError::Configuration);
    }
    let mut out: Vec<u8> = Vec::new();
    let mut i: usize = FILE_HEADER_LEN;
    while i < data.len()
        invariant
            FILE_HEADER_LEN <= i <= data@.len(),
            out@ == data@.subrange(FILE_HEADER_LEN as int, i as int),
        decreases data@.len() - i,
    {
        out.push(data[i]);
        i = i + 1;
        assert(out@ =~= data@.subrange(FILE_HEADER_LEN as int, i as int));
    }
    Ok(out)
}

/// The position after `idx` in a round-robin over `count` frames.
pub fn next_frame_index(idx: usize, count: usize) -> (r: usize)
    requires
        idx < count,
    ensures
        r == (idx + 1) % (count as int),
{
    if idx + 1 == count {
        proof {
            vstd::arithmetic::div_mod::lemma_mod_self_0(count as int);
        }
        0
    } else {
        proof {
            vstd::arithmetic::div_mod::lemma_small_mod((idx + 1) as nat, count as nat);
        }
        idx + 1
    }
}

/// Advancing the round-robin index once per cycle keeps it at the cycle
/// count modulo the number of frames, however many cycles have run; with a
/// single frame it stays at that frame.
pub proof fn lemma_round_robin(cycles: int, count: int)
    requires
        cycles >= 0,
        count > 0,
    ensures
        ((cycles % count) + 1) % count == (cycles + 1) % count,
        count == 1 ==> cycles % count == 0,
{
    vstd::arithmetic::div_mod::lemma_add_mod_noop_right(1, cycles, count);
    if count == 1 {
        vstd::arithmetic::div_mod::lemma_mod_self_0(1);
        assert(cycles % 1 == 0) by (nonlinear_arith);
    }
}

/// A non-empty set of frames that all have the same length.
pub struct FrameSet {
    frames: Vec<Vec<u8>>,
}

pub open spec fn all_same_len(frames: Seq<Seq<u8>>) -> bool {
    forall|i: int| 0 <= i < frames.len() ==> (#[trigger] frames[i]).len() == frames[0].len()
}

/// What building a frame set from these frames comes to.
pub open spec fn frames_outcome(frames: Seq<Seq<u8>>) -> Result<Seq<Seq<u8>>, StreamError> {
    if frames.len() == 0 {
        Err(StreamError::Configuration)
    } else if !all_same_len(frames) {
        Err(StreamError::BufferSize)
    } else {
        Ok(frames)
    }
}

pub open spec fn view_result(r: Result<FrameSet, StreamError>) -> Result<Seq<Seq<u8>>, StreamError> {
    match r {
        Ok(f) => Ok(f@),
        Err(e) => Err(e),
    }
}

impl View for FrameSet {
    type V = Seq<Seq<u8>>;

    closed spec fn view(&self) -> Seq<Seq<u8>> {
        self.frames@.map_values(|f: Vec<u8>| f@)
    }
}

impl FrameSet {
    pub open spec fn wf(&self) -> bool {
        self@.len() > 0 && all_same_len(self@)
    }

    /// Fails with `Configuration` on no frames, and with `BufferSize` when
    /// two frames differ in length.
    pub fn new(frames: Vec<Vec<u8>>) -> (r: Result<FrameSet, StreamError>)
        ensures
            view_result(r) == frames_outcome(frames@.map_values(|f: Vec<u8>| f@)),
            r.is_ok() ==> r.unwrap().wf(),
    {
        if frames.len() == 0 {
            return Err(StreamError::Configuration);
        }
        let ghost v = frames@.map_values(|f: Vec<u8>| f@);
        let first = frames[0].len();
        let mut i: usize = 1;
        while i < frames.len()
            invariant
                1 <= i <= frames@.len(),
                v == frames@.map_values(|f: Vec<u8>| f@),
                first == v[0].len(),
                forall|k: int| 0 <= k < i ==> (#[trigger] v[k]).len() == first,
            decreases frames@.len() - i,
        {
            if frames[i].len() != first {
                assert(v[i as int].len() != v[0].len());
                return Err(StreamError::BufferSize);
            }
            i = i + 1;
        }
        let r = FrameSet { frames };
        assert(r@ == v);
        Ok(r)
    }

    pub fn len(&self) -> (r: usize)
        ensures
            r == self@.len(),
    {
        self.frames.len()
    }

    /// The common length of the frames.
    pub fn frame_len(&self) -> (r: usize)
        requires
            self.wf(),
        ensures
            r == self@[0].len(),
    {
        self.frames[0].len()
    }

    pub fn frame(&self, i: usize) -> (r: &[u8])
        requires
            i < self@.len(),
        ensures
            r@ == self@[i as int],
    {
        self.frames[i].as_slice()
    }
}

/// The frame set made from the contents of the frame files: each loses its
/// header, then the set must be non-empty and of one length.
pub fn load_frames(files: Vec<Vec<u8>>) -> (r: Result<FrameSet, StreamError>)
    ensures
        (exists|i: int| 0 <= i < files@.len() && (#[trigger] files@[i])@.len() < FILE_HEADER_LEN)
            ==> r == Err::<FrameSet, StreamError>(StreamError::Configuration),
        (forall|i: int| 0 <= i < files@.len() ==> (#[trigger] files@[i])@.len() >= FILE_HEADER_LEN)
            ==> view_result(r) == frames_outcome(
            files@.map_values(|f: Vec<u8>| f@.subrange(FILE_HEADER_LEN as int, f@.len() as int)),
        ),
        r.is_ok() ==> r.unwrap().wf(),
{
    let ghost stripped = files@.map_values(
        |f: Vec<u8>| f@.subrange(FILE_HEADER_LEN as int, f@.len() as int),
    );
    let mut out: Vec<Vec<u8>> = Vec::new();
    let mut i: usize = 0;
    while i < files.len()
        invariant
            i <= files@.len(),
            out@.len() == i,
            stripped == files@.map_values(
                |f: Vec<u8>| f@.subrange(FILE_HEADER_LEN as int, f@.len() as int),
            ),
            forall|k: int| 0 <= k < i ==> (#[trigger] files@[k])@.len() >= FILE_HEADER_LEN,
            forall|k: int| 0 <= k < i ==> (#[trigger] out@[k])@ == stripped[k],
        decreases files@.len() - i,
    {
        match strip_header(files[i].as_slice()) {
            Ok(p) => out.push(p),
            Err(e) => return Err(e),
        }
        i = i + 1;
    }
    assert(out@.map_values(|f: Vec<u8>| f@) =~= stripped);
    FrameSet::new(out)
}

/// The one-way delay of a frame: the time now less the time it was stamped,
/// in nanoseconds; negative when the clocks disagree.
pub fn latency_nanos(now: u64, embedded: u64) -> (r: i128)
    ensures
        r == now - embedded,
{
    now as i128 - embedded as i128
}

/// The sending end: one frame in flight at a time, taken round-robin from
/// the frame set.
pub struct Producer {
    frames: FrameSet,
    index: usize,
    tag: u64,
    in_flight: bool,
}

impl Producer {
    pub closed spec fn frames_spec(&self) -> Seq<Seq<u8>> {
        self.frames@
    }

    pub closed spec fn index_spec(&self) -> int {
        self.index as int
    }

    pub closed spec fn tag_spec(&self) -> u64 {
        self.tag
    }

    pub closed spec fn in_flight_spec(&self) -> bool {
        self.in_flight
    }

    pub closed spec fn wf(&self) -> bool {
        self.frames.wf() && self.index < self.frames@.len()
    }

    /// The bytes a cycle stages: the timestamp, then the current frame.
    pub open spec fn staged(&self, ts: u64) -> Seq<u8> {
        frame_wire(ts, self.frames_spec()[self.index_spec()])
    }

    pub open spec fn wire_len(&self) -> int {
        TIMESTAMP_LEN + self.frames_spec()[0].len()
    }

    /// A producer over `frames` that sends under `tag`, starting at the first
    /// frame. The region must hold exactly a timestamp and one frame, or the
    /// producer is refused with `BufferSize`.
    pub fn new(frames: FrameSet, region_len: usize, tag: u64) -> (r: Result<Producer, StreamError>)
        requires
            frames.wf(),
        ensures
            r.is_ok() <==> region_len == TIMESTAMP_LEN + frames@[0].len(),
            r.is_err() ==> r == Err::<Producer, StreamError>(StreamError::BufferSize),
            r.is_ok() ==> r.unwrap().wf() && r.unwrap().frames_spec() == frames@
                && r.unwrap().index_spec() == 0 && r.unwrap().tag_spec() == tag
                && !r.unwrap().in_flight_spec(),
    {
        let n = frames.frame_len();
        if region_len < TIMESTAMP_LEN || region_len - TIMESTAMP_LEN != n {
            return Err(StreamError::BufferSize);
        }
        Ok(Producer { frames, index: 0, tag, in_flight: false })
    }

    pub fn current_index(&self) -> (r: usize)
        ensures
            r == self.index_spec(),
    {
        self.index
    }

    pub fn in_flight(&self) -> (r: bool)
        ensures
            r == self.in_flight_spec(),
    {
        self.in_flight
    }

    /// Stamps the current frame with `ts`, copies it into the region and
    /// posts it as a send. Refused while the previous frame is in flight, or
    /// when the region no longer fits one frame.
    pub fn begin_cycle(&mut self, ts: u64, region: &mut Region, qp: &mut QueuePair) -> (r: Result<
        WorkRequest,
        StreamError,
    >)
        requires
            old(self).wf(),
            old(qp).wf(),
        ensures
            final(self).wf(),
            final(qp).wf(),
            final(self).frames_spec() == old(self).frames_spec(),
            final(self).index_spec() == old(self).index_spec(),
            final(self).tag_spec() == old(self).tag_spec(),
            final(qp).state_spec() == old(qp).state_spec(),
            final(qp).region_len_spec() == old(qp).region_len_spec(),
            final(region).key_spec() == old(region).key_spec(),
            final(region).addr_spec() == old(region).addr_spec(),
            old(self).in_flight_spec() ==> r == Err::<WorkRequest, StreamError>(
                StreamError::InvalidState,
            ),
            !old(self).in_flight_spec() && old(region)@.len() != old(self).wire_len() ==> r == Err::<
                WorkRequest,
                StreamError,
            >(StreamError::BufferSize),
            old(self).in_flight_spec() || old(region)@.len() != old(self).wire_len() ==> final(self).in_flight_spec() == old(self).in_flight_spec() && final(region)@ == old(region)@
                && final(qp).pending_spec() == old(qp).pending_spec(),
            !old(self).in_flight_spec() && old(region)@.len() == old(self).wire_len() ==> {
                &&& final(region)@ == old(self).staged(ts)
                &&& match old(qp).post_outcome(WorkKind::Send, 0, old(region)@.len() as usize, old(self).tag_spec(), true) {
                    Some(e) => r == Err::<WorkRequest, StreamError>(e)
                        && !final(self).in_flight_spec()
                        && final(qp).pending_spec() == old(qp).pending_spec(),
                    None => r == Ok::<WorkRequest, StreamError>(
                        WorkRequest {
                            kind: WorkKind::Send,
                            offset: 0,
                            len: old(region)@.len() as usize,
                            remote_addr: 0,
                            remote_key: 0,
                            tag: old(self).tag_spec(),
                            signaled: true,
                        },
                    ) && final(self).in_flight_spec()
                        && final(qp).pending_spec() == old(qp).pending_spec().push(old(self).tag_spec()),
                }
            },
    {
        if self.in_flight {
            return Err(StreamError::InvalidState);
        }
        let n = self.frames.frame_len();
        let len = region.len();
        if len < TIMESTAMP_LEN || len - TIMESTAMP_LEN != n {
            return Err(StreamError::BufferSize);
        }
        let bytes = frame_bytes(ts, self.frames.frame(self.index));
        let w = region.write_range(0, bytes.as_slice());
        proof {
            assert(bytes@.len() == len);
            assert(spliced(old(region)@, 0, bytes@) =~= bytes@);
        }
        let req = qp.post_send(0, len, self.tag);
        if req.is_ok() {
            self.in_flight = true;
        }
        req
    }

    /// Takes one batch from a completion poll. When it completes the frame in
    /// flight, the producer moves on to the next frame and answers `true`.
    /// An entry with an error status fails with `Completion`.
    pub fn complete(&mut self, qp: &mut QueuePair, entries: &[Completion]) -> (r: Result<
        bool,
        StreamError,
    >)
        requires
            old(self).wf(),
            old(qp).wf(),
        ensures
            final(self).wf(),
            final(qp).wf(),
            final(self).frames_spec() == old(self).frames_spec(),
            final(self).tag_spec() == old(self).tag_spec(),
            r.is_err() <==> crate::engine::any_failed(entries@),
            r.is_err() ==> r == Err::<bool, StreamError>(StreamError::Completion)
                && final(qp).state_spec() == QpState::Failed,
            r.is_ok() ==> final(qp).pending_spec() == crate::engine::unreaped(
                old(qp).pending_spec(),
                entries@,
            ),
            r.is_ok() ==> r.unwrap() == (old(self).in_flight_spec() && reaped(
                old(qp).pending_spec(),
                entries@,
            ).contains(old(self).tag_spec())),
            r == Ok::<bool, StreamError>(true) ==> !final(self).in_flight_spec()
                && final(self).index_spec() == (old(self).index_spec() + 1) % (old(self).frames_spec().len() as int),
            !(r == Ok::<bool, StreamError>(true)) ==> final(self).in_flight_spec() == old(self).in_flight_spec() && final(self).index_spec() == old(self).index_spec(),
    {
        let tags = qp.reap(entries)?;
        if self.in_flight && contains_tag(&tags, self.tag) {
            self.in_flight = false;
            self.index = next_frame_index(self.index, self.frames.len());
            Ok(true)
        } else {
            Ok(false)
        }
    }
}

/// The receiving end: one receive armed at a time; a completed receive
/// yields the frame's one-way delay.
pub struct Consumer {
    tag: u64,
    armed: bool,
}

impl Consumer {
    pub closed spec fn tag_spec(&self) -> u64 {
        self.tag
    }

    pub closed spec fn armed_spec(&self) -> bool {
        self.armed
    }

    pub fn new(tag: u64) -> (r: Consumer)
        ensures
            r.tag_spec() == tag,
            !r.armed_spec(),
    {
        Consumer { tag, armed: false }
    }

    pub fn armed(&self) -> (r: bool)
        ensures
            r == self.armed_spec(),
    {
        self.armed
    }

    /// Posts a receive over the whole region, ahead of the peer's send.
    pub fn arm(&mut self, qp: &mut QueuePair) -> (r: Result<WorkRequest, StreamError>)
        requires
            old(qp).wf(),
        ensures
            final(qp).wf(),
            final(qp).state_spec() == old(qp).state_spec(),
            final(self).tag_spec() == old(self).tag_spec(),
            old(self).armed_spec() ==> r == Err::<WorkRequest, StreamError>(StreamError::InvalidState)
                && final(self).armed_spec() && final(qp).pending_spec() == old(qp).pending_spec(),
            !old(self).armed_spec() ==> match old(qp).post_outcome(
                WorkKind::Receive,
                0,
                old(qp).region_len_spec() as usize,
                old(self).tag_spec(),
                true,
            ) {
                Some(e) => r == Err::<WorkRequest, StreamError>(e) && !final(self).armed_spec()
                    && final(qp).pending_spec() == old(qp).pending_spec(),
                None => r == Ok::<WorkRequest, StreamError>(
                    WorkRequest {
                        kind: WorkKind::Receive,
                        offset: 0,
                        len: old(qp).region_len_spec() as usize,
                        remote_addr: 0,
                        remote_key: 0,
                        tag: old(self).tag_spec(),
                        signaled: true,
                    },
                ) && final(self).armed_spec() && final(qp).pending_spec() == old(qp).pending_spec().push(old(self).tag_spec()),
            },
    {
        if self.armed {
            return Err(StreamError::InvalidState);
        }
        let len = qp.region_len();
        let req = qp.post_receive(0, len, self.tag);
        if req.is_ok() {
            self.armed = true;
        }
        req
    }

    /// Takes one batch from a completion poll. When it completes the armed
    /// receive, the frame's timestamp is read from the head of `frame` and
    /// the delay to `now` is returned; a region too short to hold a
    /// timestamp fails with `BufferSize`. Entries for receives that were
    /// never armed match nothing: a send that arrived before its receive is
    /// never counted, and the consumer keeps waiting.
    pub fn complete(
        &mut self,
        qp: &mut QueuePair,
        entries: &[Completion],
        frame: &[u8],
        now: u64,
    ) -> (r: Result<Option<i128>, StreamError>)
        requires
            old(qp).wf(),
        ensures
            final(qp).wf(),
            final(self).tag_spec() == old(self).tag_spec(),
            crate::engine::any_failed(entries@) ==> r == Err::<Option<i128>, StreamError>(
                StreamError::Completion,
            ) && final(qp).state_spec() == QpState::Failed,
            !crate::engine::any_failed(entries@) ==> {
                let hit = old(self).armed_spec() && reaped(old(qp).pending_spec(), entries@).contains(
                    old(self).tag_spec(),
                );
                &&& final(qp).pending_spec() == crate::engine::unreaped(old(qp).pending_spec(), entries@)
                &&& !hit ==> r == Ok::<Option<i128>, StreamError>(None)
                    && final(self).armed_spec() == old(self).armed_spec()
                &&& hit ==> !final(self).armed_spec()
                &&& hit && frame@.len() < TIMESTAMP_LEN ==> r == Err::<Option<i128>, StreamError>(
                    StreamError::BufferSize,
                )
                &&& hit && frame@.len() >= TIMESTAMP_LEN ==> r == Ok::<Option<i128>, StreamError>(
                    Some((now - be_value(frame@)) as i128),
                )
            },
    {
        let tags = qp.reap(entries)?;
        if !(self.armed && contains_tag(&tags, self.tag)) {
            return Ok(None);
        }
        self.armed = false;
        match network_to_u64(frame) {
            Some(ts) => Ok(Some(latency_nanos(now, ts))),
            None => Err(StreamError::BufferSize),
        }
    }
}

} // verus!
