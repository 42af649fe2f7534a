//! The control-plane exchange of endpoint descriptors, as a state machine:
//! the caller moves the bytes and reports back, this module decides.
use vstd::prelude::*;
use crate::descriptor::{EndpointDescriptor, DESCRIPTOR_LEN};
use crate::error::StreamError;

verus! {

/// Which side of the control connection a peer is. The connector writes its
/// record first; the listener reads first, so exactly one side initiates.
#[derive(Debug, Clone, Copy, PartialEq, Eq, Structural)]
pub enum Role {
    Connector,
    Listener,
}

/// What the caller must do next on the stream.
#[derive(Debug, PartialEq, Eq)]
pub enum Step {
    /// Write all of these bytes, then call `on_sent`.
    Send(Vec<u8>),
    /// Read up to this many bytes and hand them to `on_received`.
    Receive(usize),
    /// Both records have crossed; `remote` holds the peer's descriptor.
    Done,
    /// The exchange broke and cannot go on.
    Failed,
}

/// One peer's side of a descriptor exchange.
pub struct Exchange {
    pub role: Role,
    pub local: EndpointDescriptor,
    pub sent: bool,
    pub received: Vec<u8>,
    pub failed: bool,
}

impl Exchange {
    pub open spec fn wf(&self) -> bool {
        self.received@.len() <= DESCRIPTOR_LEN
    }

    pub open spec fn wants_send(&self) -> bool {
        !self.failed && !self.sent && (self.role == Role::Connector
            || self.received@.len() == DESCRIPTOR_LEN)
    }

    pub open spec fn wants_receive(&self) -> bool {
        !self.failed && self.received@.len() < DESCRIPTOR_LEN && (self.role == Role::Listener
            || self.sent)
    }

    pub open spec fn is_done(&self) -> bool {
        !self.failed && self.sent && self.received@.len() == DESCRIPTOR_LEN
    }

    /// The peer's descriptor, once its whole record is in.
    pub open spec fn remote_spec(&self) -> EndpointDescriptor {
        EndpointDescriptor::of_wire(self.received@)
    }

    pub fn new(role: Role, local: EndpointDescriptor) -> (r: Exchange)
        ensures
            r.wf(),
            r.role == role,
            r.local == local,
            !r.sent && !r.failed && r.received@.len() == 0,
            role == Role::Connector ==> r.wants_send(),
            role == Role::Listener ==> r.wants_receive(),
    {
        Exchange { role, local, sent: false, received: Vec::new(), failed: false }
    }

    pub fn next_step(&self) -> (r: Step)
        requires
            self.wf(),
        ensures
            self.failed ==> r == Step::Failed,
            self.wants_send() ==> r is Send && r->Send_0@ == self.local.wire(),
            self.wants_receive() ==> r == Step::Receive(
                (DESCRIPTOR_LEN - self.received@.len()) as usize,
            ),
            self.is_done() ==> r == Step::Done,
    {
        if self.failed {
            Step::Failed
        } else if !self.sent && (matches!(self.role, Role::Connector)
            || self.received.len() == DESCRIPTOR_LEN) {
            Step::Send(self.local.encode())
        } else if self.received.len() < DESCRIPTOR_LEN {
            Step::Receive(DESCRIPTOR_LEN - self.received.len())
        } else {
            Step::Done
        }
    }

    /// Records that the local record was written whole.
    pub fn on_sent(&mut self) -> (r: Result<(), StreamError>)
        requires
            old(self).wf(),
        ensures
            final(self).wf(),
            r.is_ok() <==> old(self).wants_send(),
            r.is_ok() ==> *final(self) == (Exchange { sent: true, ..*old(self) }),
            r.is_err() ==> r == Err::<(), StreamError>(StreamError::InvalidState)
                && *final(self) == *old(self),
    {
        if self.failed || self.sent || !(matches!(self.role, Role::Connector)
            || self.received.len() == DESCRIPTOR_LEN) {
            return Err(StreamError::InvalidState);
        }
        self.sent = true;
        Ok(())
    }

    /// Takes bytes read from the stream. An empty read means the stream
    /// closed before the record was whole, and more bytes than the record
    /// still lacks make it malformed: both end the exchange with `Handshake`.
    pub fn on_received(&mut self, chunk: &[u8]) -> (r: Result<(), StreamError>)
        requires
            old(self).wf(),
        ensures
            final(self).wf(),
            final(self).role == old(self).role,
            final(self).local == old(self).local,
            final(self).sent == old(self).sent,
            !old(self).wants_receive() ==> r == Err::<(), StreamError>(StreamError::InvalidState)
                && *final(self) == *old(self),
            old(self).wants_receive() && (chunk@.len() == 0 || chunk@.len() + old(
                self,
            ).received@.len() > DESCRIPTOR_LEN) ==> r == Err::<(), StreamError>(
                StreamError::Handshake,
            ) && final(self).failed && final(self).received@ == old(self).received@,
            old(self).wants_receive() && 0 < chunk@.len() && chunk@.len() + old(
                self,
            ).received@.len() <= DESCRIPTOR_LEN ==> r.is_ok() && !final(self).failed
                && final(self).received@ == old(self).received@ + chunk@,
    {
        if self.failed || self.received.len() >= DESCRIPTOR_LEN || !(matches!(
            self.role,
            Role::Listener,
        ) || self.sent) {
            return Err(StreamError::InvalidState);
        }
        if chunk.len() == 0 || chunk.len() > DESCRIPTOR_LEN - self.received.len() {
            self.failed = true;
            return Err(StreamError::Handshake);
        }
        let ghost before = self.received@;
        let mut i: usize = 0;
        while i < chunk.len()
            invariant
                i <= chunk@.len(),
                before.len() + chunk@.len() <= DESCRIPTOR_LEN,
                self.received@ == before + chunk@.subrange(0, i as int),
                self.role == old(self).role,
                self.local == old(self).local,
                self.sent == old(self).sent,
                !self.failed,
            decreases chunk@.len() - i,
        {
            self.received.push(chunk[i]);
            i = i + 1;
            assert(self.received@ =~= before + chunk@.subrange(0, i as int));
        }
        assert(chunk@.subrange(0, chunk@.len() as int) =~= chunk@);
        Ok(())
    }

    /// The peer's descriptor, once both records have crossed.
    pub fn remote(&self) -> (r: Option<EndpointDescriptor>)
        requires
            self.wf(),
        ensures
            r.is_some() <==> self.is_done(),
            r.is_some() ==> r.unwrap() == self.remote_spec(),
    {
        if self.failed || !self.sent || self.received.len() != DESCRIPTOR_LEN {
            None
        } else {
            match EndpointDescriptor::decode(self.received.as_slice()) {
                Ok(d) => Some(d),
                Err(_) => None,
            }
        }
    }
}

/// When a connector and a listener have each sent their record and each
/// received the other's whole, each one's remote descriptor is the other's
/// local one, bit for bit.
pub proof fn lemma_exchange_round_trip(a: Exchange, b: Exchange)
    requires
        a.role == Role::Connector,
        b.role == Role::Listener,
        a.is_done(),
        b.is_done(),
        a.received@ == b.local.wire(),
        b.received@ == a.local.wire(),
    ensures
        a.remote_spec() == b.local,
        b.remote_spec() == a.local,
{
    crate::descriptor::lemma_descriptor_round_trip(a.local);
    crate::descriptor::lemma_descriptor_round_trip(b.local);
}

} // verus!
