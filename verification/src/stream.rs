use vstd::prelude::*;

verus! {

use crate::addr::Address;
use crate::wire::{ReadOutcome, Wire, can_fill, filled_bytes, wire_after_fill, wire_after_send};

/// The reference model of one established full-duplex connection: one wire
/// per direction, plus the two addresses, immutable once the connection
/// exists.
///
/// Splitting consumes the stream and yields two distinctly owned halves,
/// one per direction. That is the single irreversible transition of a
/// stream: because `into_split` takes the stream by value, no handle to
/// the unsplit stream remains afterwards — further use of it is ruled out
/// by ownership, not by a run-time check.
pub struct StreamModel {
    inbound: Wire,
    outbound: Wire,
    local: Address,
    peer: Address,
}

/// The receiving half of a split stream: it alone can read its direction.
pub struct ReadHalfModel {
    wire: Wire,
}

/// The sending half of a split stream: it alone can write its direction.
pub struct WriteHalfModel {
    wire: Wire,
}

impl StreamModel {
    /// The bytes the peer has sent and this side has not yet read.
    pub closed spec fn inbound_pending(self) -> Seq<u8> {
        self.inbound.pending()
    }

    /// Whether the peer has closed its sending side.
    pub closed spec fn inbound_closed(self) -> bool {
        self.inbound.is_closed()
    }

    /// The bytes this side has sent.
    pub closed spec fn outbound_pending(self) -> Seq<u8> {
        self.outbound.pending()
    }

    /// Whether this side has closed its sending direction.
    pub closed spec fn outbound_closed(self) -> bool {
        self.outbound.is_closed()
    }

    pub closed spec fn local_spec(self) -> Address {
        self.local
    }

    pub closed spec fn peer_spec(self) -> Address {
        self.peer
    }

    /// A connected stream between `local` and `peer` whose peer has so far
    /// transmitted what `inbound` holds. Nothing has been sent yet.
    pub fn connected(inbound: Wire, local: Address, peer: Address) -> (r: Self)
        ensures
            r.inbound_pending() == inbound.pending(),
            r.inbound_closed() == inbound.is_closed(),
            r.outbound_pending() == Seq::<u8>::empty(),
            !r.outbound_closed(),
            r.local_spec() == local,
            r.peer_spec() == peer,
    {
        StreamModel { inbound, outbound: Wire::new(), local, peer }
    }

    /// The local address; stable for the stream's lifetime.
    pub fn local_addr(&self) -> (r: Address)
        ensures
            r == self.local_spec(),
    {
        self.local
    }

    /// The peer's address; stable for the stream's lifetime.
    pub fn peer_addr(&self) -> (r: Address)
        ensures
            r == self.peer_spec(),
    {
        self.peer
    }

    /// Consumes the stream and divides its one resource: the read half
    /// takes the inbound direction exactly as it stands, the write half
    /// the outbound. There is no path back to a unified handle.
    pub fn into_split(self) -> (r: (ReadHalfModel, WriteHalfModel))
        ensures
            r.0.pending() == self.inbound_pending(),
            r.0.peer_closed() == self.inbound_closed(),
            r.1.sent() == self.outbound_pending(),
            r.1.closed() == self.outbound_closed(),
    {
        (ReadHalfModel { wire: self.inbound }, WriteHalfModel { wire: self.outbound })
    }
}

impl ReadHalfModel {
    /// The bytes the peer has sent and this half has not yet read.
    pub closed spec fn pending(self) -> Seq<u8> {
        self.wire.pending()
    }

    /// Whether the peer has closed its sending side.
    pub closed spec fn peer_closed(self) -> bool {
        self.wire.is_closed()
    }

    /// Attempts an exact read of `len` bytes: returns them all, or
    /// suspends, or fails because the peer closed too early — never a
    /// partial buffer.
    pub fn read_exact(&mut self, len: usize) -> (r: ReadOutcome)
        ensures
            can_fill(old(self).pending(), len as nat) ==> ({
                &&& r matches ReadOutcome::Filled(data)
                    && data@ == filled_bytes(old(self).pending(), len as nat)
                &&& final(self).pending() == wire_after_fill(old(self).pending(), len as nat)
                &&& final(self).peer_closed() == old(self).peer_closed()
            }),
            !can_fill(old(self).pending(), len as nat) && !old(self).peer_closed() ==> {
                &&& r is Pending
                &&& *final(self) == *old(self)
            },
            !can_fill(old(self).pending(), len as nat) && old(self).peer_closed() ==> {
                &&& r is Eof
                &&& *final(self) == *old(self)
            },
    {
        self.wire.try_read_exact(len)
    }
}

impl WriteHalfModel {
    /// The bytes this half has sent, in submission order.
    pub closed spec fn sent(self) -> Seq<u8> {
        self.wire.pending()
    }

    /// Whether this half has closed its direction.
    pub closed spec fn closed(self) -> bool {
        self.wire.is_closed()
    }

    /// Sends every byte of `payload`, after everything sent before it.
    pub fn write_all(&mut self, payload: &[u8])
        requires
            !old(self).closed(),
        ensures
            final(self).sent() == wire_after_send(old(self).sent(), payload@),
            !final(self).closed(),
    {
        self.wire.send(payload);
    }

    /// Closes this direction; everything already sent stays in flight.
    pub fn close(&mut self)
        ensures
            final(self).sent() == old(self).sent(),
            final(self).closed(),
    {
        self.wire.close();
    }
}

} // verus!
