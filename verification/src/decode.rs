//! The decapsulator: consumes the framed format, re-derives the running
//! digest, verifies every checkpoint, and forwards verified payload bytes to
//! the sink — a whole-stream outcome of exactly what `spec_decode` defines.

use vstd::prelude::*;

use crate::digest::absorbed_of;
use crate::digest::digest_of;
use crate::digest::Digest256;
use crate::encap::push_bytes;
use crate::wire::be32_from;
use crate::wire::decode_frames;
use crate::wire::magic_bytes;
use crate::wire::magic_seq;
use crate::wire::max_piece_size_value;
use crate::wire::spec_decode;
use crate::ReliableWriteError;

verus! {

/// Compares two byte strings for equality.
pub fn bytes_eq(a: &[u8], b: &[u8]) -> (r: bool)
    ensures
        r <==> a@ == b@,
{
    if a.len() != b.len() {
        return false;
    }
    let mut i: usize = 0;
    while i < a.len()
        invariant
            i <= a@.len(),
            a@.len() == b@.len(),
            forall|j: int| 0 <= j < i ==> a@[j] == b@[j],
        decreases a@.len() - i,
    {
        if *vstd::slice::slice_index_get(a, i) != *vstd::slice::slice_index_get(b, i) {
            return false;
        }
        i = i + 1;
    }
    proof {
        assert(a@ =~= b@);
    }
    true
}

/// Decodes one whole framed stream from `input`, appending each piece's
/// payload to `output` the moment it is read — before its checkpoint is
/// verified, so on a fault `output` may hold a forwarded but unverified
/// prefix, which the commit layer must discard.
///
/// Returns and forwards exactly what `spec_decode` defines: `Ok` on a fully
/// valid stream, and otherwise the first fault encountered — a short source
/// is a `ReadError`, a bad prologue or oversize length field a
/// `ProtocolError`, a checkpoint mismatch an `IntegrityError`. Bytes beyond
/// the completion trailer are ignored, as a stream reader would never ask
/// for them.
pub fn copy_out(input: &[u8], output: &mut Vec<u8>) -> (r: Result<(), ReliableWriteError>)
    ensures
        r == spec_decode(input@).0,
        final(output)@ == old(output)@ + spec_decode(input@).1,
{
    let magic = magic_bytes();
    if input.len() < 14 {
        proof {
            assert(output@ =~= old(output)@ + spec_decode(input@).1);
        }
        return Err(ReliableWriteError::ReadError);
    }
    let head = vstd::slice::slice_subrange(input, 0, 14);
    if !bytes_eq(head, magic.as_slice()) {
        proof {
            assert(output@ =~= old(output)@ + spec_decode(input@).1);
        }
        return Err(ReliableWriteError::ProtocolError);
    }
    let mut digest = Digest256::new();
    let mut pos: usize = 14;
    proof {
        assert(input@.skip(14) =~= input@.skip(magic_seq().len() as int));
    }
    loop
        invariant
            14 <= pos <= input@.len(),
            spec_decode(input@).0 == decode_frames(input@.skip(pos as int), absorbed_of(digest)).0,
            old(output)@ + spec_decode(input@).1 == output@ + decode_frames(
                input@.skip(pos as int),
                absorbed_of(digest),
            ).1,
        decreases input@.len() - pos,
    {
        let ghost absorbed0 = absorbed_of(digest);
        let ghost rem = input@.skip(pos as int);
        if input.len() - pos < 4 {
            proof {
                assert(output@ =~= old(output)@ + spec_decode(input@).1);
            }
            return Err(ReliableWriteError::ReadError);
        }
        let b0 = *vstd::slice::slice_index_get(input, pos);
        let b1 = *vstd::slice::slice_index_get(input, pos + 1);
        let b2 = *vstd::slice::slice_index_get(input, pos + 2);
        let b3 = *vstd::slice::slice_index_get(input, pos + 3);
        let n32 = be32_from(b0, b1, b2, b3);
        proof {
            assert(rem.subrange(0, 4) =~= seq![b0, b1, b2, b3]);
        }
        if n32 > max_piece_size_value() {
            proof {
                assert(output@ =~= old(output)@ + spec_decode(input@).1);
            }
            return Err(ReliableWriteError::ProtocolError);
        }
        let n = n32 as usize;
        if input.len() - pos - 4 < n {
            proof {
                assert(output@ =~= old(output)@ + spec_decode(input@).1);
            }
            return Err(ReliableWriteError::ReadError);
        }
        let payload = vstd::slice::slice_subrange(input, pos + 4, pos + 4 + n);
        proof {
            assert(payload@ =~= rem.subrange(4, 4 + n as int));
        }
        digest.absorb(payload);
        push_bytes(output, payload);
        let ghost absorbed2 = absorbed0 + payload@;
        if input.len() - (pos + 4 + n) < 32 {
            proof {
                assert(output@ =~= old(output)@ + spec_decode(input@).1);
            }
            return Err(ReliableWriteError::ReadError);
        }
        let cp_wire = vstd::slice::slice_subrange(input, pos + 4 + n, pos + 4 + n + 32);
        let cp_local = digest.checkpoint();
        proof {
            assert(cp_wire@ =~= rem.subrange(4 + n as int, 4 + n as int + 32));
            assert(cp_local@ == digest_of(absorbed2));
        }
        if !bytes_eq(cp_wire, cp_local.as_slice()) {
            proof {
                assert(output@ =~= old(output)@ + spec_decode(input@).1);
            }
            return Err(ReliableWriteError::IntegrityError);
        }
        let pos2 = pos + 4 + n + 32;
        proof {
            assert(rem.skip(4 + n as int + 32) =~= input@.skip(pos2 as int));
        }
        if n == 0 {
            let ghost rest = rem.skip(4 + n as int + 32);
            if input.len() - pos2 < 32 {
                proof {
                    assert(output@ =~= old(output)@ + spec_decode(input@).1);
                }
                return Err(ReliableWriteError::ReadError);
            }
            let trailer = vstd::slice::slice_subrange(input, pos2, pos2 + 32);
            proof {
                assert(trailer@ =~= rest.subrange(0, 32));
            }
            if !bytes_eq(trailer, cp_local.as_slice()) {
                proof {
                    assert(output@ =~= old(output)@ + spec_decode(input@).1);
                }
                return Err(ReliableWriteError::IntegrityError);
            }
            proof {
                assert(output@ =~= old(output)@ + spec_decode(input@).1);
            }
            return Ok(());
        }
        pos = pos2;
    }
}

} // verus!
