use vstd::prelude::*;

verus! {

use crate::errors::ErrorKind;

/// Progress of one exact-length read.
///
/// `read_exact` must fill the caller's buffer completely or fail; it never
/// reports a partial fill as success. The driver of the underlying transport
/// reports every delivery of bytes to this machine, which decides whether the
/// read is complete, must continue, or — when the peer closes early — has
/// failed with an end-of-stream error.
pub struct ReadExact {
    /// Bytes the caller asked for.
    pub needed: usize,
    /// Bytes delivered so far; never more than `needed`.
    pub filled: usize,
}

impl ReadExact {
    pub open spec fn wf(self) -> bool {
        self.filled <= self.needed
    }

    pub open spec fn remaining_spec(self) -> nat {
        (self.needed - self.filled) as nat
    }

    /// Start an exact read of `needed` bytes.
    pub fn new(needed: usize) -> (r: Self)
        ensures
            r.wf(),
            r.needed == needed,
            r.filled == 0,
    {
        ReadExact { needed, filled: 0 }
    }

    /// Bytes still owed before the read is exact.
    pub fn remaining(&self) -> (r: usize)
        requires
            self.wf(),
        ensures
            r == self.remaining_spec(),
    {
        self.needed - self.filled
    }

    /// Whether every requested byte has arrived.
    pub fn is_done(&self) -> (r: bool)
        ensures
            r <==> self.filled == self.needed,
    {
        self.filled == self.needed
    }

    /// Record a delivery of `n` bytes (a transport never delivers more than
    /// was asked of it). Returns whether the buffer is now exactly full.
    pub fn on_bytes(&mut self, n: usize) -> (done: bool)
        requires
            old(self).wf(),
            0 < n <= old(self).remaining_spec(),
        ensures
            final(self).wf(),
            final(self).needed == old(self).needed,
            final(self).filled == old(self).filled + n,
            done <==> final(self).filled == final(self).needed,
    {
        self.filled = self.filled + n;
        self.filled == self.needed
    }

    /// The peer closed the stream. Exact-or-fail: if any byte is still owed
    /// the read has failed with an end-of-stream error; a partial fill is
    /// never success. If nothing is owed the close is harmless.
    pub fn on_close(&self) -> (r: Option<ErrorKind>)
        requires
            self.wf(),
        ensures
            r == if self.filled < self.needed {
                Some(ErrorKind::UnexpectedEof)
            } else {
                None::<ErrorKind>
            },
    {
        if self.filled < self.needed {
            Some(ErrorKind::UnexpectedEof)
        } else {
            None
        }
    }
}

/// Progress of one complete write.
///
/// `write_all` must hand every byte of the caller's buffer to the transport
/// or fail; a partial write is never observable as success. The driver
/// reports how many bytes the transport accepted on each submission.
pub struct WriteAll {
    /// Bytes the caller asked to send.
    pub total: usize,
    /// Bytes the transport has accepted so far; never more than `total`.
    pub written: usize,
}

impl WriteAll {
    pub open spec fn wf(self) -> bool {
        self.written <= self.total
    }

    pub open spec fn remaining_spec(self) -> nat {
        (self.total - self.written) as nat
    }

    /// Start a complete write of `total` bytes.
    pub fn new(total: usize) -> (r: Self)
        ensures
            r.wf(),
            r.total == total,
            r.written == 0,
    {
        WriteAll { total, written: 0 }
    }

    /// Bytes still owed to the transport.
    pub fn remaining(&self) -> (r: usize)
        requires
            self.wf(),
        ensures
            r == self.remaining_spec(),
    {
        self.total - self.written
    }

    /// Whether every byte has been handed to the transport.
    pub fn is_done(&self) -> (r: bool)
        ensures
            r <==> self.written == self.total,
    {
        self.written == self.total
    }

    /// Record that the transport accepted `n` bytes of what was offered.
    /// Returns whether the whole buffer has now been handed over.
    pub fn on_accepted(&mut self, n: usize) -> (done: bool)
        requires
            old(self).wf(),
            0 < n <= old(self).remaining_spec(),
        ensures
            final(self).wf(),
            final(self).total == old(self).total,
            final(self).written == old(self).written + n,
            done <==> final(self).written == final(self).total,
    {
        self.written = self.written + n;
        self.written == self.total
    }

    /// The transport accepted zero bytes. If any byte is still owed the
    /// write has failed: it can make no further progress.
    pub fn on_refusal(&self) -> (r: Option<ErrorKind>)
        requires
            self.wf(),
        ensures
            r == if self.written < self.total {
                Some(ErrorKind::WriteZero)
            } else {
                None::<ErrorKind>
            },
    {
        if self.written < self.total {
            Some(ErrorKind::WriteZero)
        } else {
            None
        }
    }
}

} // verus!
