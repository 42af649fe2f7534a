//! The connected queue pair as the protocol sees it: the state order
//! Init -> ready-to-receive -> ready-to-send, the work requests it admits,
//! and the matching of completions to outstanding tags.
use vstd::prelude::*;
use crate::descriptor::EndpointDescriptor;
use crate::error::StreamError;

verus! {

#[derive(Debug, Clone, Copy, PartialEq, Eq, Structural)]
pub enum QpState {
    Init,
    ReadyToReceive,
    ReadyToSend,
    /// A work request completed with an error; the pair is unusable.
    Failed,
}

#[derive(Debug, Clone, Copy, PartialEq, Eq, Structural)]
pub enum WorkKind {
    Send,
    Receive,
    Write,
    Read,
}

/// A work request as admitted by the queue pair, for the transport to post.
#[derive(Debug, Clone, Copy, PartialEq, Eq, Structural)]
pub struct WorkRequest {
    pub kind: WorkKind,
    pub offset: usize,
    pub len: usize,
    /// Peer address and key; zero for the two-sided kinds.
    pub remote_addr: u64,
    pub remote_key: u32,
    pub tag: u64,
    /// Whether a completion will be generated for it.
    pub signaled: bool,
}

/// One entry reaped from the completion queue.
#[derive(Debug, Clone, Copy, PartialEq, Eq, Structural)]
pub struct Completion {
    pub tag: u64,
    pub success: bool,
    pub kind: WorkKind,
}

/// The tags of a batch of completions, in order.
pub open spec fn tags_of(entries: Seq<Completion>) -> Seq<u64> {
    entries.map_values(|c: Completion| c.tag)
}

pub open spec fn any_failed(entries: Seq<Completion>) -> bool {
    exists|i: int| 0 <= i < entries.len() && !(#[trigger] entries[i]).success
}

pub open spec fn in_batch(entries: Seq<Completion>) -> spec_fn(u64) -> bool {
    |t: u64| tags_of(entries).contains(t)
}

pub open spec fn not_in_batch(entries: Seq<Completion>) -> spec_fn(u64) -> bool {
    |t: u64| !tags_of(entries).contains(t)
}

/// The pending tags that a batch completes, in posting order.
pub open spec fn reaped(pending: Seq<u64>, entries: Seq<Completion>) -> Seq<u64> {
    pending.filter(in_batch(entries))
}

/// The pending tags that a batch leaves pending.
pub open spec fn unreaped(pending: Seq<u64>, entries: Seq<Completion>) -> Seq<u64> {
    pending.filter(not_in_batch(entries))
}

/// Whether any entry of the batch carries `tag`.
pub fn any_with_tag(entries: &[Completion], tag: u64) -> (r: bool)
    ensures
        r == tags_of(entries@).contains(tag),
{
    let mut i: usize = 0;
    while i < entries.len()
        invariant
            i <= entries@.len(),
            forall|k: int| 0 <= k < i ==> entries@[k].tag != tag,
        decreases entries@.len() - i,
    {
        if entries[i].tag == tag {
            assert(tags_of(entries@)[i as int] == tag);
            return true;
        }
        i = i + 1;
    }
    assert forall|k: int| 0 <= k < tags_of(entries@).len() implies tags_of(entries@)[k] != tag by {
        assert(tags_of(entries@)[k] == entries@[k].tag);
    }
    false
}

/// Whether `t` is among `tags`.
pub fn contains_tag(tags: &Vec<u64>, t: u64) -> (r: bool)
    ensures
        r == tags@.contains(t),
{
    let mut i: usize = 0;
    while i < tags.len()
        invariant
            i <= tags@.len(),
            forall|k: int| 0 <= k < i ==> tags@[k] != t,
        decreases tags@.len() - i,
    {
        if tags[i] == t {
            return true;
        }
        i = i + 1;
    }
    false
}

/// Whether the batch holds a completion from the send side (anything but a
/// receive). Such a completion also means that every unsignaled request
/// posted before it has finished.
pub open spec fn any_send_side(entries: Seq<Completion>) -> bool {
    exists|i: int| 0 <= i < entries.len() && (#[trigger] entries[i]).kind != WorkKind::Receive
}

proof fn lemma_filter_no_duplicates(s: Seq<u64>, p: spec_fn(u64) -> bool)
    requires
        s.no_duplicates(),
    ensures
        s.filter(p).no_duplicates(),
    decreases s.len(),
{
    if s.len() > 0 {
        let t = s.drop_last();
        let x = s.last();
        assert(s =~= t.push(x));
        assert(t.no_duplicates());
        lemma_filter_no_duplicates(t, p);
        t.lemma_filter_push(x, p);
        if p(x) {
            assert(!t.contains(x));
            if t.filter(p).contains(x) {
                t.lemma_filter_contains_rev(p, x);
            }
        }
    }
}

proof fn lemma_filter_membership(s: Seq<u64>, p: spec_fn(u64) -> bool, x: u64)
    ensures
        s.filter(p).contains(x) <==> s.contains(x) && p(x),
{
    broadcast use vstd::seq_lib::group_filter_ensures;
    if s.filter(p).contains(x) {
        s.lemma_filter_contains_rev(p, x);
        let i = choose|i: int| 0 <= i < s.filter(p).len() && s.filter(p)[i] == x;
        assert(p(s.filter(p)[i]));
    }
    if s.contains(x) && p(x) {
        let i = choose|i: int| 0 <= i < s.len() && s[i] == x;
        assert(s.filter(p).contains(s[i]));
    }
}

proof fn lemma_filter_twice(
    s: Seq<u64>,
    a: spec_fn(u64) -> bool,
    b: spec_fn(u64) -> bool,
    c: spec_fn(u64) -> bool,
)
    requires
        forall|x: u64| #[trigger] c(x) == (a(x) && b(x)),
    ensures
        s.filter(a).filter(b) == s.filter(c),
    decreases s.len(),
{
    if s.len() == 0 {
        reveal(Seq::filter);
        assert(s.filter(a) =~= s);
    } else {
        let t = s.drop_last();
        let x = s.last();
        assert(s =~= t.push(x));
        lemma_filter_twice(t, a, b, c);
        t.lemma_filter_push(x, a);
        t.lemma_filter_push(x, c);
        t.filter(a).lemma_filter_push(x, b);
    }
}

proof fn lemma_concat_contains(a: Seq<u64>, b: Seq<u64>, x: u64)
    ensures
        (a + b).contains(x) <==> a.contains(x) || b.contains(x),
{
    if (a + b).contains(x) {
        let i = choose|i: int| 0 <= i < (a + b).len() && (a + b)[i] == x;
        if i < a.len() {
            assert(a[i] == x);
        } else {
            assert(b[i - a.len()] == x);
        }
    }
    if a.contains(x) {
        let i = choose|i: int| 0 <= i < a.len() && a[i] == x;
        assert((a + b)[i] == x);
    }
    if b.contains(x) {
        let i = choose|i: int| 0 <= i < b.len() && b[i] == x;
        assert((a + b)[a.len() + i] == x);
    }
}

proof fn lemma_tags_of_concat(b1: Seq<Completion>, b2: Seq<Completion>)
    ensures
        forall|x: u64|
            #[trigger] tags_of(b1 + b2).contains(x) <==> tags_of(b1).contains(x) || tags_of(
                b2,
            ).contains(x),
{
    assert(tags_of(b1 + b2) =~= tags_of(b1) + tags_of(b2));
    assert forall|x: u64|
        #[trigger] tags_of(b1 + b2).contains(x) <==> tags_of(b1).contains(x) || tags_of(
            b2,
        ).contains(x) by {
        lemma_concat_contains(tags_of(b1), tags_of(b2), x);
    }
}

/// Reaping a run of completions in two polls or in one comes to the same
/// thing: the tags returned by the two polls, one after the other, are
/// distinct and are exactly those returned by the single poll, and the same
/// tags stay pending.
pub proof fn lemma_reap_granularity(pending: Seq<u64>, b1: Seq<Completion>, b2: Seq<Completion>)
    requires
        pending.no_duplicates(),
    ensures
        (reaped(pending, b1) + reaped(unreaped(pending, b1), b2)).no_duplicates(),
        forall|t: u64|
            (reaped(pending, b1) + reaped(unreaped(pending, b1), b2)).contains(t) <==> #[trigger] reaped(
                pending,
                b1 + b2,
            ).contains(t),
        unreaped(unreaped(pending, b1), b2) == unreaped(pending, b1 + b2),
{
    let first = reaped(pending, b1);
    let rest = unreaped(pending, b1);
    let second = reaped(rest, b2);
    let both = first + second;
    lemma_tags_of_concat(b1, b2);
    lemma_filter_no_duplicates(pending, in_batch(b1));
    lemma_filter_no_duplicates(pending, not_in_batch(b1));
    lemma_filter_no_duplicates(rest, in_batch(b2));
    assert forall|x: u64| #[trigger] first.contains(x) implies tags_of(b1).contains(x) by {
        lemma_filter_membership(pending, in_batch(b1), x);
    }
    assert forall|x: u64| #[trigger] second.contains(x) implies !tags_of(b1).contains(x) by {
        lemma_filter_membership(rest, in_batch(b2), x);
        lemma_filter_membership(pending, not_in_batch(b1), x);
    }
    assert forall|i: int, j: int| 0 <= i < j < both.len() implies both[i] != both[j] by {
        if i < first.len() && j >= first.len() {
            assert(first.contains(both[i]));
            assert(second.contains(both[j]));
        }
    }
    assert forall|t: u64| both.contains(t) <==> #[trigger] reaped(pending, b1 + b2).contains(t) by {
        lemma_filter_membership(pending, in_batch(b1), t);
        lemma_filter_membership(pending, not_in_batch(b1), t);
        lemma_filter_membership(rest, in_batch(b2), t);
        lemma_filter_membership(pending, in_batch(b1 + b2), t);
        lemma_concat_contains(first, second, t);
        assert(tags_of(b1 + b2).contains(t) <==> tags_of(b1).contains(t) || tags_of(b2).contains(t));
    }
    assert forall|x: u64| #[trigger] not_in_batch(b1 + b2)(x) == (not_in_batch(b1)(x)
        && not_in_batch(b2)(x)) by {
        assert(tags_of(b1 + b2).contains(x) <==> tags_of(b1).contains(x) || tags_of(b2).contains(x));
    }
    lemma_filter_twice(pending, not_in_batch(b1), not_in_batch(b2), not_in_batch(b1 + b2));
}

/// Once a poll has returned a completion for every pending tag, the tags
/// reaped are exactly the pending ones, each once and in posting order, and
/// nothing stays pending.
pub proof fn lemma_reap_all(pending: Seq<u64>, entries: Seq<Completion>)
    requires
        forall|i: int| 0 <= i < pending.len() ==> tags_of(entries).contains(#[trigger] pending[i]),
    ensures
        reaped(pending, entries) == pending,
        unreaped(pending, entries).len() == 0,
    decreases pending.len(),
{
    if pending.len() == 0 {
        reveal(Seq::filter);
    } else {
        let t = pending.drop_last();
        let x = pending.last();
        assert(pending =~= t.push(x));
        assert forall|i: int| 0 <= i < t.len() implies tags_of(entries).contains(#[trigger] t[i]) by {
            assert(t[i] == pending[i]);
        }
        lemma_reap_all(t, entries);
        assert(tags_of(entries).contains(pending[pending.len() - 1]));
        t.lemma_filter_push(x, in_batch(entries));
        t.lemma_filter_push(x, not_in_batch(entries));
    }
}

pub struct QueuePair {
    state: QpState,
    remote: Option<EndpointDescriptor>,
    region_len: usize,
    pending: Vec<u64>,
    unsignaled: Vec<u64>,
}

impl QueuePair {
    pub closed spec fn state_spec(&self) -> QpState {
        self.state
    }

    pub closed spec fn remote_spec(&self) -> Option<EndpointDescriptor> {
        self.remote
    }

    /// Length of the local registered region that work requests address.
    pub closed spec fn region_len_spec(&self) -> nat {
        self.region_len as nat
    }

    /// Tags of the signaled requests whose completion has not been seen.
    pub closed spec fn pending_spec(&self) -> Seq<u64> {
        self.pending@
    }

    /// Tags of the unsignaled writes not yet covered by a later send-side
    /// completion. At most one unsignaled write per tag is allowed there.
    pub closed spec fn unsignaled_spec(&self) -> Seq<u64> {
        self.unsignaled@
    }

    pub open spec fn wf(&self) -> bool {
        self.pending_spec().no_duplicates()
    }

    /// A queue pair in its initial state over a local region of `region_len` bytes.
    pub fn new(region_len: usize) -> (r: QueuePair)
        ensures
            r.wf(),
            r.state_spec() == QpState::Init,
            r.remote_spec().is_none(),
            r.region_len_spec() == region_len,
            r.pending_spec().len() == 0,
            r.unsignaled_spec().len() == 0,
    {
        QueuePair {
            state: QpState::Init,
            remote: None,
            region_len,
            pending: Vec::new(),
            unsignaled: Vec::new(),
        }
    }

    pub fn state(&self) -> (r: QpState)
        ensures
            r == self.state_spec(),
    {
        self.state
    }

    pub fn region_len(&self) -> (r: usize)
        ensures
            r == self.region_len_spec(),
    {
        self.region_len
    }

    pub fn remote(&self) -> (r: Option<EndpointDescriptor>)
        ensures
            r == self.remote_spec(),
    {
        self.remote
    }

    pub fn pending(&self) -> (r: Vec<u64>)
        ensures
            r@ == self.pending_spec(),
    {
        self.pending.clone()
    }

    /// Consumes the peer's descriptor and brings the pair through
    /// ready-to-receive to ready-to-send. Allowed once, from `Init` only.
    pub fn handshake(&mut self, remote: EndpointDescriptor) -> (r: Result<(), StreamError>)
        requires
            old(self).wf(),
        ensures
            final(self).wf(),
            r.is_ok() <==> old(self).state_spec() == QpState::Init,
            r.is_ok() ==> final(self).state_spec() == QpState::ReadyToSend
                && final(self).remote_spec() == Some(remote),
            r.is_err() ==> r == Err::<(), StreamError>(StreamError::InvalidState)
                && final(self).state_spec() == old(self).state_spec()
                && final(self).remote_spec() == old(self).remote_spec(),
            final(self).pending_spec() == old(self).pending_spec(),
            final(self).unsignaled_spec() == old(self).unsignaled_spec(),
            final(self).region_len_spec() == old(self).region_len_spec(),
    {
        if !matches!(self.state, QpState::Init) {
            return Err(StreamError::InvalidState);
        }
        self.remote = Some(remote);
        self.state = QpState::ReadyToReceive;
        self.state = QpState::ReadyToSend;
        Ok(())
    }

    /// The request admitted on a connected pair, or why it is refused.
    pub open spec fn post_outcome(
        &self,
        kind: WorkKind,
        offset: usize,
        len: usize,
        tag: u64,
        signaled: bool,
    ) -> Option<StreamError> {
        if self.state_spec() != QpState::ReadyToSend {
            Some(StreamError::InvalidState)
        } else if offset + len > self.region_len_spec() {
            Some(StreamError::OutOfBounds)
        } else if self.pending_spec().contains(tag) {
            Some(StreamError::InvalidState)
        } else if !signaled && self.unsignaled_spec().contains(tag) {
            Some(StreamError::InvalidState)
        } else {
            None
        }
    }

    fn post(
        &mut self,
        kind: WorkKind,
        offset: usize,
        len: usize,
        remote_addr: u64,
        remote_key: u32,
        tag: u64,
        signaled: bool,
    ) -> (r: Result<WorkRequest, StreamError>)
        requires
            old(self).wf(),
        ensures
            final(self).wf(),
            final(self).state_spec() == old(self).state_spec(),
            final(self).remote_spec() == old(self).remote_spec(),
            final(self).region_len_spec() == old(self).region_len_spec(),
            match old(self).post_outcome(kind, offset, len, tag, signaled) {
                Some(e) => r == Err::<WorkRequest, StreamError>(e)
                    && final(self).pending_spec() == old(self).pending_spec()
                    && final(self).unsignaled_spec() == old(self).unsignaled_spec(),
                None => r == Ok::<WorkRequest, StreamError>(
                    WorkRequest { kind, offset, len, remote_addr, remote_key, tag, signaled },
                ) && final(self).pending_spec() == (if signaled {
                    old(self).pending_spec().push(tag)
                } else {
                    old(self).pending_spec()
                }) && final(self).unsignaled_spec() == (if signaled {
                    old(self).unsignaled_spec()
                } else {
                    old(self).unsignaled_spec().push(tag)
                }),
            },
    {
        if !matches!(self.state, QpState::ReadyToSend) {
            return Err(StreamError::InvalidState);
        }
        if offset > self.region_len || len > self.region_len - offset {
            return Err(StreamError::OutOfBounds);
        }
        if contains_tag(&self.pending, tag) {
            return Err(StreamError::InvalidState);
        }
        if !signaled {
            if contains_tag(&self.unsignaled, tag) {
                return Err(StreamError::InvalidState);
            }
            self.unsignaled.push(tag);
        } else {
            proof {
                assert forall|i: int, j: int|
                    0 <= i < j < self.pending@.push(tag).len() implies self.pending@.push(tag)[i]
                    != self.pending@.push(tag)[j] by {
                    if j == self.pending@.len() {
                        assert(self.pending@.contains(self.pending@[i]));
                    }
                }
            }
            self.pending.push(tag);
        }
        Ok(WorkRequest { kind, offset, len, remote_addr, remote_key, tag, signaled })
    }

    /// Arms `offset..offset + len` of the local region to catch the peer's
    /// next send.
    pub fn post_receive(&mut self, offset: usize, len: usize, tag: u64) -> (r: Result<
        WorkRequest,
        StreamError,
    >)
        requires
            old(self).wf(),
        ensures
            final(self).wf(),
            final(self).state_spec() == old(self).state_spec(),
            final(self).remote_spec() == old(self).remote_spec(),
            final(self).region_len_spec() == old(self).region_len_spec(),
            final(self).unsignaled_spec() == old(self).unsignaled_spec(),
            match old(self).post_outcome(WorkKind::Receive, offset, len, tag, true) {
                Some(e) => r == Err::<WorkRequest, StreamError>(e)
                    && final(self).pending_spec() == old(self).pending_spec(),
                None => r == Ok::<WorkRequest, StreamError>(
                    WorkRequest { kind: WorkKind::Receive, offset, len, remote_addr: 0, remote_key: 0, tag, signaled: true },
                ) && final(self).pending_spec() == old(self).pending_spec().push(tag),
            },
    {
        self.post(WorkKind::Receive, offset, len, 0, 0, tag, true)
    }

    /// Pushes `offset..offset + len` of the local region to the peer's next
    /// posted receive.
    pub fn post_send(&mut self, offset: usize, len: usize, tag: u64) -> (r: Result<
        WorkRequest,
        StreamError,
    >)
        requires
            old(self).wf(),
        ensures
            final(self).wf(),
            final(self).state_spec() == old(self).state_spec(),
            final(self).remote_spec() == old(self).remote_spec(),
            final(self).region_len_spec() == old(self).region_len_spec(),
            final(self).unsignaled_spec() == old(self).unsignaled_spec(),
            match old(self).post_outcome(WorkKind::Send, offset, len, tag, true) {
                Some(e) => r == Err::<WorkRequest, StreamError>(e)
                    && final(self).pending_spec() == old(self).pending_spec(),
                None => r == Ok::<WorkRequest, StreamError>(
                    WorkRequest { kind: WorkKind::Send, offset, len, remote_addr: 0, remote_key: 0, tag, signaled: true },
                ) && final(self).pending_spec() == old(self).pending_spec().push(tag),
            },
    {
        self.post(WorkKind::Send, offset, len, 0, 0, tag, true)
    }

    /// Writes local bytes straight into the peer's region. An unsignaled
    /// write produces no completion and so is not left pending; a second
    /// unsignaled write under the same tag is refused until a send-side
    /// completion shows the first one done.
    pub fn post_write(
        &mut self,
        offset: usize,
        len: usize,
        remote_addr: u64,
        remote_key: u32,
        tag: u64,
        signaled: bool,
    ) -> (r: Result<WorkRequest, StreamError>)
        requires
            old(self).wf(),
        ensures
            final(self).wf(),
            final(self).state_spec() == old(self).state_spec(),
            final(self).remote_spec() == old(self).remote_spec(),
            final(self).region_len_spec() == old(self).region_len_spec(),
            match old(self).post_outcome(WorkKind::Write, offset, len, tag, signaled) {
                Some(e) => r == Err::<WorkRequest, StreamError>(e)
                    && final(self).pending_spec() == old(self).pending_spec()
                    && final(self).unsignaled_spec() == old(self).unsignaled_spec(),
                None => r == Ok::<WorkRequest, StreamError>(
                    WorkRequest { kind: WorkKind::Write, offset, len, remote_addr, remote_key, tag, signaled },
                ) && final(self).pending_spec() == (if signaled {
                    old(self).pending_spec().push(tag)
                } else {
                    old(self).pending_spec()
                }) && final(self).unsignaled_spec() == (if signaled {
                    old(self).unsignaled_spec()
                } else {
                    old(self).unsignaled_spec().push(tag)
                }),
            },
    {
        self.post(WorkKind::Write, offset, len, remote_addr, remote_key, tag, signaled)
    }

    /// Pulls bytes from the peer's region into the local one.
    pub fn post_read(
        &mut self,
        offset: usize,
        len: usize,
        remote_addr: u64,
        remote_key: u32,
        tag: u64,
    ) -> (r: Result<WorkRequest, StreamError>)
        requires
            old(self).wf(),
        ensures
            final(self).wf(),
            final(self).state_spec() == old(self).state_spec(),
            final(self).remote_spec() == old(self).remote_spec(),
            final(self).region_len_spec() == old(self).region_len_spec(),
            final(self).unsignaled_spec() == old(self).unsignaled_spec(),
            match old(self).post_outcome(WorkKind::Read, offset, len, tag, true) {
                Some(e) => r == Err::<WorkRequest, StreamError>(e)
                    && final(self).pending_spec() == old(self).pending_spec(),
                None => r == Ok::<WorkRequest, StreamError>(
                    WorkRequest { kind: WorkKind::Read, offset, len, remote_addr, remote_key, tag, signaled: true },
                ) && final(self).pending_spec() == old(self).pending_spec().push(tag),
            },
    {
        self.post(WorkKind::Read, offset, len, remote_addr, remote_key, tag, true)
    }

    /// Takes one batch from a completion poll. An entry with an error status
    /// fails the pair. Otherwise every pending tag that the batch carries is
    /// completed and returned, in posting order; entries for tags that are
    /// not pending are ignored. An empty batch changes nothing.
    pub fn reap(&mut self, entries: &[Completion]) -> (r: Result<Vec<u64>, StreamError>)
        requires
            old(self).wf(),
        ensures
            final(self).wf(),
            final(self).remote_spec() == old(self).remote_spec(),
            final(self).region_len_spec() == old(self).region_len_spec(),
            r.is_err() <==> any_failed(entries@),
            r.is_err() ==> r == Err::<Vec<u64>, StreamError>(StreamError::Completion)
                && final(self).state_spec() == QpState::Failed
                && final(self).pending_spec() == old(self).pending_spec()
                && final(self).unsignaled_spec() == old(self).unsignaled_spec(),
            r.is_ok() ==> final(self).unsignaled_spec() == if any_send_side(entries@) {
                Seq::<u64>::empty()
            } else {
                old(self).unsignaled_spec()
            },
            r.is_ok() ==> r.unwrap()@ == reaped(old(self).pending_spec(), entries@)
                && final(self).pending_spec() == unreaped(old(self).pending_spec(), entries@)
                && final(self).state_spec() == old(self).state_spec(),
    {
        let mut send_side = false;
        let mut i: usize = 0;
        while i < entries.len()
            invariant
                i <= entries@.len(),
                forall|k: int| 0 <= k < i ==> (#[trigger] entries@[k]).success,
                forall|k: int| 0 <= k < i ==> (#[trigger] entries@[k]).kind == WorkKind::Receive
                    || send_side,
                send_side ==> any_send_side(entries@),
                self.unsignaled@ == old(self).unsignaled@,
                self.pending@ == old(self).pending@,
                self.pending@.no_duplicates(),
                self.state == old(self).state,
                self.remote == old(self).remote,
                self.region_len == old(self).region_len,
            decreases entries@.len() - i,
        {
            if !entries[i].success {
                self.state = QpState::Failed;
                return Err(StreamError::Completion);
            }
            if !matches!(entries[i].kind, WorkKind::Receive) {
                send_side = true;
            }
            i = i + 1;
        }
        let ghost pend = self.pending@;
        let mut done: Vec<u64> = Vec::new();
        let mut kept: Vec<u64> = Vec::new();
        let mut j: usize = 0;
        while j < self.pending.len()
            invariant
                self.pending@ == pend,
                pend == old(self).pending@,
                pend.no_duplicates(),
                self.unsignaled@ == old(self).unsignaled@,
                self.state == old(self).state,
                self.remote == old(self).remote,
                self.region_len == old(self).region_len,
                j <= pend.len(),
                done@ == pend.take(j as int).filter(in_batch(entries@)),
                kept@ == pend.take(j as int).filter(not_in_batch(entries@)),
            decreases pend.len() - j,
        {
            let t = self.pending[j];
            proof {
                assert(pend.take(j + 1) =~= pend.take(j as int).push(t));
                pend.take(j as int).lemma_filter_push(t, in_batch(entries@));
                pend.take(j as int).lemma_filter_push(t, not_in_batch(entries@));
            }
            if any_with_tag(entries, t) {
                assert(in_batch(entries@)(t));
                done.push(t);
            } else {
                assert(not_in_batch(entries@)(t));
                kept.push(t);
            }
            j = j + 1;
        }
        proof {
            assert(pend.take(pend.len() as int) =~= pend);
            lemma_filter_no_duplicates(pend, not_in_batch(entries@));
        }
        self.pending = kept;
        if send_side {
            self.unsignaled = Vec::new();
        }
        Ok(done)
    }
}

} // verus!
