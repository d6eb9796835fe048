//! The encapsulator: turns a sequence of pieces into the framed wire format,
//! maintaining one running digest over all piece bytes seen so far.

use vstd::prelude::*;

use crate::digest::absorbed_of;
use crate::digest::digest_of;
use crate::digest::Digest256;
use crate::wire::frame_seq;
use crate::wire::magic_bytes;
use crate::wire::magic_seq;
use crate::wire::piece_size;
use crate::wire::push_be32;
use crate::wire::terminator_seq;

verus! {

/// Where an encapsulator stands in its life cycle.
pub enum EncapPhase {
    /// Prologue written; pieces may be appended.
    Writing,
    /// Terminator written; only the closing trailer remains.
    Finished,
    /// Trailer written; nothing more may follow.
    Closed,
}

/// Appends every byte of `bytes` to `out`.
pub fn push_bytes(out: &mut Vec<u8>, bytes: &[u8])
    ensures
        final(out)@ == old(out)@ + bytes@,
{
    let mut i: usize = 0;
    proof {
        assert(out@ =~= old(out)@ + bytes@.subrange(0, 0));
    }
    while i < bytes.len()
        invariant
            i <= bytes@.len(),
            out@ == old(out)@ + bytes@.subrange(0, i as int),
        decreases bytes@.len() - i,
    {
        let b = *vstd::slice::slice_index_get(bytes, i);
        out.push(b);
        proof {
            assert(out@ =~= old(out)@ + bytes@.subrange(0, i + 1));
        }
        i = i + 1;
    }
    proof {
        assert(bytes@.subrange(0, bytes@.len() as int) =~= bytes@);
    }
}

/// The encapsulator: owns the running digest and buffers the framed wire
/// bytes it produces until the caller drains them to the real sink.
pub struct ReliableEncap {
    digest: Digest256,
    output: Vec<u8>,
    drained: Ghost<Seq<u8>>,
    phase: Ghost<EncapPhase>,
}

impl ReliableEncap {
    /// All piece bytes absorbed into the running digest so far, in order.
    pub closed spec fn absorbed(&self) -> Seq<u8> {
        absorbed_of(self.digest)
    }

    /// Wire bytes produced but not yet drained to the sink.
    pub closed spec fn pending(&self) -> Seq<u8> {
        self.output@
    }

    /// Every wire byte this encapsulator has produced, drained or not.
    pub closed spec fn emitted(&self) -> Seq<u8> {
        self.drained@ + self.output@
    }

    /// Where this encapsulator stands in its life cycle.
    pub closed spec fn phase(&self) -> EncapPhase {
        self.phase@
    }

    /// Opens a stream: writes the magic prologue and starts a fresh digest.
    pub fn new() -> (r: ReliableEncap)
        ensures
            r.phase() == EncapPhase::Writing,
            r.absorbed() == Seq::<u8>::empty(),
            r.emitted() == magic_seq(),
            r.pending() == magic_seq(),
    {
        let r = ReliableEncap {
            digest: Digest256::new(),
            output: magic_bytes(),
            drained: Ghost(Seq::empty()),
            phase: Ghost(EncapPhase::Writing),
        };
        proof {
            assert(r.emitted() =~= magic_seq());
        }
        r
    }

    /// Appends one piece: its length as four big-endian bytes, the piece
    /// bytes themselves, then the running digest's checkpoint over everything
    /// absorbed so far including this piece. Advances the digest irreversibly.
    pub fn update(&mut self, buf: &Vec<u8>)
        requires
            old(self).phase() == EncapPhase::Writing,
            0 < buf@.len() <= piece_size(),
        ensures
            final(self).phase() == EncapPhase::Writing,
            final(self).absorbed() == old(self).absorbed() + buf@,
            final(self).emitted() == old(self).emitted() + frame_seq(old(self).absorbed(), buf@),
            final(self).pending() == old(self).pending() + frame_seq(old(self).absorbed(), buf@),
    {
        let len32: u32 = buf.len() as u32;
        push_be32(&mut self.output, len32);
        self.digest.absorb(buf.as_slice());
        push_bytes(&mut self.output, buf.as_slice());
        let cp = self.digest.checkpoint();
        push_bytes(&mut self.output, cp.as_slice());
        proof {
            assert(cp@ == digest_of(old(self).absorbed() + buf@));
            assert(self.pending() =~= old(self).pending() + frame_seq(
                old(self).absorbed(),
                buf@,
            ));
            assert(self.emitted() =~= old(self).emitted() + frame_seq(
                old(self).absorbed(),
                buf@,
            ));
        }
    }

    /// Signals end of pieces: writes a zero length field followed by the
    /// unchanged current checkpoint.
    pub fn finish_write(&mut self)
        requires
            old(self).phase() == EncapPhase::Writing,
        ensures
            final(self).phase() == EncapPhase::Finished,
            final(self).absorbed() == old(self).absorbed(),
            final(self).emitted() == old(self).emitted() + terminator_seq(old(self).absorbed()),
            final(self).pending() == old(self).pending() + terminator_seq(old(self).absorbed()),
    {
        push_be32(&mut self.output, 0);
        let cp = self.digest.checkpoint();
        push_bytes(&mut self.output, cp.as_slice());
        self.phase = Ghost(EncapPhase::Finished);
        proof {
            assert(self.pending() =~= old(self).pending() + terminator_seq(
                old(self).absorbed(),
            ));
            assert(self.emitted() =~= old(self).emitted() + terminator_seq(
                old(self).absorbed(),
            ));
        }
    }

    /// Closes the stream: writes one more copy of the final checkpoint as the
    /// completion trailer. Nothing may be written after it; making the bytes
    /// durable belongs to the caller that owns the real sink.
    pub fn finalize(&mut self)
        requires
            old(self).phase() == EncapPhase::Finished,
        ensures
            final(self).phase() == EncapPhase::Closed,
            final(self).absorbed() == old(self).absorbed(),
            final(self).emitted() == old(self).emitted() + digest_of(old(self).absorbed()),
            final(self).pending() == old(self).pending() + digest_of(old(self).absorbed()),
    {
        let cp = self.digest.checkpoint();
        push_bytes(&mut self.output, cp.as_slice());
        self.phase = Ghost(EncapPhase::Closed);
        proof {
            assert(self.pending() =~= old(self).pending() + digest_of(old(self).absorbed()));
            assert(self.emitted() =~= old(self).emitted() + digest_of(old(self).absorbed()));
        }
    }

    /// Hands out the wire bytes produced since the last drain, so the caller
    /// can forward them to the real sink one piece at a time.
    pub fn drain_output(&mut self) -> (r: Vec<u8>)
        ensures
            r@ == old(self).pending(),
            final(self).pending() == Seq::<u8>::empty(),
            final(self).emitted() == old(self).emitted(),
            final(self).absorbed() == old(self).absorbed(),
            final(self).phase() == old(self).phase(),
    {
        let mut r: Vec<u8> = Vec::new();
        core::mem::swap(&mut r, &mut self.output);
        proof {
            self.drained@ = self.drained@ + r@;
        }
        proof {
            assert(self.emitted() =~= old(self).emitted());
        }
        r
    }
}

} // verus!
