//! The engine's byte channel. A `Peer` holds the bytes that have arrived from
//! the remote peer and are not yet consumed, every byte the engine has
//! written toward it, and the clock value the engine answers time queries
//! from. The engine reads and writes nothing but a `Peer`; whatever carries
//! the bytes to and from a real transport fills and drains one.

use vstd::prelude::*;
use crate::fields::copy_range;
use crate::frame::{take_header, HeaderStep, HeaderRead, read_header};

verus! {

/// The byte channel: arrived-but-unread bytes, written bytes, and a clock.
pub struct Peer {
    incoming: Vec<u8>,
    pos: usize,
    outgoing: Vec<u8>,
    epoch_seconds: u32,
}

impl Peer {
    /// The consumed prefix never overruns what has arrived.
    pub closed spec fn wf(&self) -> bool {
        self.pos <= self.incoming@.len()
    }

    /// The bytes that have arrived and are not yet consumed.
    pub closed spec fn unread(&self) -> Seq<u8> {
        self.incoming@.skip(self.pos as int)
    }

    /// Every byte written toward the remote peer, oldest first.
    pub closed spec fn sent(&self) -> Seq<u8> {
        self.outgoing@
    }

    /// The clock value used to answer time queries.
    pub closed spec fn epoch(&self) -> u32 {
        self.epoch_seconds
    }

    /// An empty channel with the given clock value.
    pub fn new(epoch_seconds: u32) -> (r: Peer)
        ensures
            r.wf(),
            r.unread() == Seq::<u8>::empty(),
            r.sent() == Seq::<u8>::empty(),
            r.epoch() == epoch_seconds,
    {
        let r = Peer { incoming: Vec::new(), pos: 0, outgoing: Vec::new(), epoch_seconds };
        proof {
            assert(r.unread() =~= Seq::<u8>::empty());
        }
        r
    }

    /// Hand the channel bytes that arrived from the remote peer.
    pub fn push_incoming(&mut self, bytes: &Vec<u8>)
        requires
            old(self).wf(),
        ensures
            final(self).wf(),
            final(self).unread() == old(self).unread() + bytes@,
            final(self).sent() == old(self).sent(),
            final(self).epoch() == old(self).epoch(),
    {
        let n = bytes.len();
        let ghost orig = self.incoming@;
        let mut k: usize = 0;
        while k < n
            invariant
                k <= n,
                n == bytes@.len(),
                self.incoming@ == orig + bytes@.subrange(0, k as int),
                self.pos == old(self).pos,
                self.outgoing == old(self).outgoing,
                self.epoch_seconds == old(self).epoch_seconds,
            decreases n - k,
        {
            let b = bytes[k];
            self.incoming.push(b);
            assert(self.incoming@ =~= orig + bytes@.subrange(0, k as int + 1));
            k = k + 1;
        }
        proof {
            assert(bytes@.subrange(0, bytes@.len() as int) =~= bytes@);
            assert(self.unread() =~= old(self).unread() + bytes@);
        }
    }

    /// Move the clock.
    pub fn set_epoch(&mut self, epoch_seconds: u32)
        requires
            old(self).wf(),
        ensures
            final(self).wf(),
            final(self).epoch() == epoch_seconds,
            final(self).unread() == old(self).unread(),
            final(self).sent() == old(self).sent(),
    {
        self.epoch_seconds = epoch_seconds;
    }

    /// The clock value.
    pub fn epoch_seconds(&self) -> (r: u32)
        ensures
            r == self.epoch(),
    {
        self.epoch_seconds
    }

    /// How many arrived bytes are not yet consumed.
    pub fn unread_len(&self) -> (r: usize)
        requires
            self.wf(),
        ensures
            r == self.unread().len(),
    {
        self.incoming.len() - self.pos
    }

    /// Read a frame header from the front of the unread bytes, without
    /// consuming anything.
    pub fn try_read_header(&self) -> (r: HeaderRead)
        requires
            self.wf(),
        ensures
            match take_header(self.unread()) {
                HeaderStep::Incomplete => r is Incomplete,
                HeaderStep::BadMarker => r is BadMarker,
                HeaderStep::TooLong => r is TooLong,
                HeaderStep::Done { length, tag, consumed } => r matches HeaderRead::Done {
                    length: rl,
                    tag: rt,
                    consumed: rc,
                } && rl == length && rt == tag && rc == consumed,
            },
    {
        read_header(&self.incoming, self.pos)
    }

    /// Consume `n` unread bytes without materializing them.
    pub fn consume(&mut self, n: usize)
        requires
            old(self).wf(),
            n <= old(self).unread().len(),
        ensures
            final(self).wf(),
            final(self).unread() == old(self).unread().skip(n as int),
            final(self).sent() == old(self).sent(),
            final(self).epoch() == old(self).epoch(),
    {
        let _total: usize = self.incoming.len();
        self.pos = self.pos + n;
        proof {
            assert(self.unread() =~= old(self).unread().skip(n as int));
        }
    }

    /// Consume and return the first `n` unread bytes.
    pub fn read_bytes(&mut self, n: usize) -> (r: Vec<u8>)
        requires
            old(self).wf(),
            n <= old(self).unread().len(),
        ensures
            final(self).wf(),
            r@ == old(self).unread().take(n as int),
            final(self).unread() == old(self).unread().skip(n as int),
            final(self).sent() == old(self).sent(),
            final(self).epoch() == old(self).epoch(),
    {
        let r = copy_range(&self.incoming, self.pos, n);
        proof {
            assert(r@ =~= old(self).unread().take(n as int));
        }
        self.consume(n);
        r
    }

    /// Copy unread bytes `from .. from + n` without consuming anything.
    pub fn peek_bytes(&self, from: usize, n: usize) -> (r: Vec<u8>)
        requires
            self.wf(),
            from + n <= self.unread().len(),
        ensures
            r@ == self.unread().subrange(from as int, from as int + n as int),
    {
        let _total: usize = self.incoming.len();
        let r = copy_range(&self.incoming, self.pos + from, n);
        proof {
            assert(r@ =~= self.unread().subrange(from as int, from as int + n as int));
        }
        r
    }

    /// Write bytes toward the remote peer.
    pub fn write(&mut self, bytes: &Vec<u8>)
        requires
            old(self).wf(),
        ensures
            final(self).wf(),
            final(self).sent() == old(self).sent() + bytes@,
            final(self).unread() == old(self).unread(),
            final(self).epoch() == old(self).epoch(),
    {
        let n = bytes.len();
        let ghost orig = self.outgoing@;
        let mut k: usize = 0;
        while k < n
            invariant
                k <= n,
                n == bytes@.len(),
                self.outgoing@ == orig + bytes@.subrange(0, k as int),
                self.pos == old(self).pos,
                self.incoming == old(self).incoming,
                self.epoch_seconds == old(self).epoch_seconds,
            decreases n - k,
        {
            let b = bytes[k];
            self.outgoing.push(b);
            assert(self.outgoing@ =~= orig + bytes@.subrange(0, k as int + 1));
            k = k + 1;
        }
        proof {
            assert(bytes@.subrange(0, bytes@.len() as int) =~= bytes@);
        }
    }

    /// The bytes written so far.
    pub fn sent_bytes(&self) -> (r: &Vec<u8>)
        ensures
            r@ == self.sent(),
    {
        &self.outgoing
    }

    /// Drain the bytes written so far, oldest first.
    pub fn take_outgoing(&mut self) -> (r: Vec<u8>)
        requires
            old(self).wf(),
        ensures
            final(self).wf(),
            r@ == old(self).sent(),
            final(self).sent() == Seq::<u8>::empty(),
            final(self).unread() == old(self).unread(),
            final(self).epoch() == old(self).epoch(),
    {
        let r = copy_range(&self.outgoing, 0, self.outgoing.len());
        proof {
            assert(r@ =~= old(self).sent());
        }
        self.outgoing = Vec::new();
        r
    }
}

} // verus!
