use vstd::prelude::*;

verus! {

/// What a transport's wire holds after a sender transmits `payload`:
/// the bytes already in flight, then the new bytes, in submission order.
pub open spec fn wire_after_send(wire: Seq<u8>, payload: Seq<u8>) -> Seq<u8> {
    wire + payload
}

/// An exact read of `len` bytes can complete iff that many bytes are in
/// flight.
pub open spec fn can_fill(wire: Seq<u8>, len: nat) -> bool {
    len <= wire.len()
}

/// The bytes an exact read of `len` returns: the oldest `len` in flight.
pub open spec fn filled_bytes(wire: Seq<u8>, len: nat) -> Seq<u8> {
    wire.take(len as int)
}

/// What remains in flight after an exact read of `len` bytes.
pub open spec fn wire_after_fill(wire: Seq<u8>, len: nat) -> Seq<u8> {
    wire.skip(len as int)
}

/// Everything written on one half, in order, is read back byte-identical on
/// the peer's half: an exact read of all bytes in flight after a send
/// returns exactly the earlier bytes followed by the payload.
pub proof fn lemma_send_preserves_order(wire: Seq<u8>, payload: Seq<u8>)
    ensures
        can_fill(wire_after_send(wire, payload), (wire.len() + payload.len()) as nat),
        filled_bytes(wire_after_send(wire, payload), (wire.len() + payload.len()) as nat)
            == wire + payload,
        wire_after_fill(wire_after_send(wire, payload), (wire.len() + payload.len()) as nat)
            == Seq::<u8>::empty(),
{
    assert(filled_bytes(wire_after_send(wire, payload), (wire.len() + payload.len()) as nat)
        =~= wire + payload);
    assert(wire_after_fill(wire_after_send(wire, payload), (wire.len() + payload.len()) as nat)
        =~= Seq::<u8>::empty());
}

/// Round trip on an idle wire: for every payload, writing it and then
/// reading exactly its length yields the payload itself, unchanged and in
/// order, leaving the wire idle again.
pub proof fn lemma_round_trip(payload: Seq<u8>)
    ensures
        can_fill(wire_after_send(Seq::<u8>::empty(), payload), payload.len()),
        filled_bytes(wire_after_send(Seq::<u8>::empty(), payload), payload.len()) == payload,
        wire_after_fill(wire_after_send(Seq::<u8>::empty(), payload), payload.len())
            == Seq::<u8>::empty(),
{
    lemma_send_preserves_order(Seq::<u8>::empty(), payload);
    assert(wire_after_send(Seq::<u8>::empty(), payload) =~= payload);
}

/// For a single writer, successive sends concatenate: transmitting one
/// payload and then another leaves the wire exactly as transmitting their
/// concatenation would — bytes arrive in submission order.
pub proof fn lemma_sends_concatenate(wire: Seq<u8>, first: Seq<u8>, second: Seq<u8>)
    ensures
        wire_after_send(wire_after_send(wire, first), second)
            == wire_after_send(wire, first + second),
{
    assert(wire_after_send(wire_after_send(wire, first), second)
        =~= wire_after_send(wire, first + second));
}

/// A peer that closes after sending fewer than `len` bytes can never
/// complete an exact read of `len`: the read must fail, never return a
/// partial buffer as success.
pub proof fn lemma_short_close_never_fills(wire: Seq<u8>, len: nat)
    requires
        wire.len() < len,
    ensures
        !can_fill(wire, len),
{
}

/// The result of attempting an exact read against a wire.
pub enum ReadOutcome {
    /// The requested bytes were all in flight; here they are.
    Filled(Vec<u8>),
    /// Not enough bytes yet and the sender may still send: the caller
    /// suspends and retries after the wire changes.
    Pending,
    /// The sender closed before enough bytes arrived: the read has failed
    /// with an end-of-stream error.
    Eof,
}

/// An in-memory wire: the reference model of one direction of a connection.
///
/// It realizes the ordering contract every transport must honour — bytes
/// sent on one half arrive at the peer's half in submission order — and the
/// exact-or-fail read contract, with the suspension point made explicit as
/// the `Pending` outcome.
pub struct Wire {
    buf: Vec<u8>,
    closed: bool,
}

impl Wire {
    /// The bytes in flight: sent but not yet read.
    pub closed spec fn pending(self) -> Seq<u8> {
        self.buf@
    }

    /// Whether the sending side has closed.
    pub closed spec fn is_closed(self) -> bool {
        self.closed
    }

    /// A fresh wire: nothing in flight, sender open.
    pub fn new() -> (r: Self)
        ensures
            r.pending() == Seq::<u8>::empty(),
            !r.is_closed(),
    {
        Wire { buf: Vec::new(), closed: false }
    }

    /// Send every byte of `payload`: it joins the bytes in flight, after
    /// everything sent before it.
    pub fn send(&mut self, payload: &[u8])
        requires
            !old(self).is_closed(),
        ensures
            final(self).pending() == wire_after_send(old(self).pending(), payload@),
            !final(self).is_closed(),
    {
        self.buf.extend_from_slice(payload);
        proof {
            assert(self.buf@ =~= old(self).buf@ + payload@);
        }
    }

    /// The sender closes its half. Bytes already in flight stay readable.
    pub fn close(&mut self)
        ensures
            final(self).pending() == old(self).pending(),
            final(self).is_closed(),
    {
        self.closed = true;
    }

    /// Attempt an exact read of `len` bytes.
    ///
    /// Exactly one of three things happens: the oldest `len` bytes in
    /// flight are returned and leave the wire; or too few bytes are in
    /// flight and the sender is still open, so the read suspends with the
    /// wire unchanged; or too few bytes are in flight and the sender has
    /// closed, so the read fails — it never returns a partial buffer.
    pub fn try_read_exact(&mut self, len: usize) -> (r: ReadOutcome)
        ensures
            can_fill(old(self).pending(), len as nat) ==> ({
                &&& r matches ReadOutcome::Filled(data)
                    && data@ == filled_bytes(old(self).pending(), len as nat)
                &&& final(self).pending() == wire_after_fill(old(self).pending(), len as nat)
                &&& final(self).is_closed() == old(self).is_closed()
            }),
            !can_fill(old(self).pending(), len as nat) && !old(self).is_closed() ==> {
                &&& r is Pending
                &&& *final(self) == *old(self)
            },
            !can_fill(old(self).pending(), len as nat) && old(self).is_closed() ==> {
                &&& r is Eof
                &&& *final(self) == *old(self)
            },
    {
        if len <= self.buf.len() {
            let mut head = self.buf.split_off(len);
            core::mem::swap(&mut self.buf, &mut head);
            ReadOutcome::Filled(head)
        } else if self.closed {
            ReadOutcome::Eof
        } else {
            ReadOutcome::Pending
        }
    }
}

} // verus!
