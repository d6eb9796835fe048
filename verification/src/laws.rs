//! The laws of the container format: round-trip, checkpoint determinism,
//! oversize and truncation rejection, and tamper detection for the
//! checkpoint regions of a stream.

use vstd::prelude::*;

use crate::wire::be32_bytes;
use crate::wire::be32_value;
use crate::wire::decode_frames;
use crate::wire::encoding_of;
use crate::wire::frame_seq;
use crate::wire::frames_seq;
use crate::wire::lemma_be32_round_trip;
use crate::wire::magic_seq;
use crate::wire::max_piece_size;
use crate::wire::piece_size;
use crate::wire::spec_decode;
use crate::wire::terminator_seq;
use crate::digest::digest_of;
use crate::digest::digest_size;
use crate::ReliableWriteError;

verus! {

/// A terminator followed by a matching trailer decodes successfully and
/// forwards nothing.
proof fn lemma_decode_terminator(absorbed: Seq<u8>)
    ensures
        decode_frames(terminator_seq(absorbed) + digest_of(absorbed), absorbed).0 == Ok::<
            (),
            ReliableWriteError,
        >(()),
        decode_frames(terminator_seq(absorbed) + digest_of(absorbed), absorbed).1 == Seq::<
            u8,
        >::empty(),
{
    let s = terminator_seq(absorbed) + digest_of(absorbed);
    assert(digest_of(absorbed).len() == digest_size());
    assert(s.len() == 4 + 2 * digest_size());
    assert(s.subrange(0, 4) =~= be32_bytes(0));
    lemma_be32_round_trip(0);
    let payload = s.subrange(4, 4);
    assert(payload =~= Seq::<u8>::empty());
    assert(absorbed + payload =~= absorbed);
    assert(s.subrange(4, 4 + digest_size()) =~= digest_of(absorbed));
    let rest = s.skip(4 + digest_size());
    assert(rest =~= digest_of(absorbed));
    assert(rest.subrange(0, digest_size()) =~= digest_of(absorbed));
}

/// Decoding a run of well-formed frames succeeds on every one of them: it
/// forwards exactly their payloads, absorbs exactly their payloads, and then
/// decodes whatever follows with the advanced running digest.
proof fn lemma_decode_past_frames(absorbed: Seq<u8>, pieces: Seq<Seq<u8>>, suffix: Seq<u8>)
    requires
        forall|i: int| 0 <= i < pieces.len() ==> 0 < (#[trigger] pieces[i]).len() <= max_piece_size(),
    ensures
        decode_frames(frames_seq(absorbed, pieces) + suffix, absorbed).0 == decode_frames(
            suffix,
            absorbed + pieces.flatten(),
        ).0,
        decode_frames(frames_seq(absorbed, pieces) + suffix, absorbed).1 == pieces.flatten()
            + decode_frames(suffix, absorbed + pieces.flatten()).1,
    decreases pieces.len(),
{
    if pieces.len() == 0 {
        assert(frames_seq(absorbed, pieces) + suffix =~= suffix);
        assert(absorbed + pieces.flatten() =~= absorbed);
        assert(pieces.flatten() + decode_frames(suffix, absorbed).1 =~= decode_frames(
            suffix,
            absorbed,
        ).1);
    } else {
        let p0 = pieces.first();
        let rest = pieces.drop_first();
        let n = p0.len() as int;
        let s = frames_seq(absorbed, pieces) + suffix;
        let s2 = frames_seq(absorbed + p0, rest) + suffix;
        assert(digest_of(absorbed + p0).len() == digest_size());
        assert(frame_seq(absorbed, p0).len() == 4 + n + digest_size());
        assert(s =~= frame_seq(absorbed, p0) + s2);
        assert(s.subrange(0, 4) =~= be32_bytes(p0.len() as u32));
        lemma_be32_round_trip(p0.len() as u32);
        assert(0 <= pieces[0].len() <= max_piece_size());
        assert(be32_value(s.subrange(0, 4)) as int == n);
        assert(s.len() >= 4 + n + digest_size());
        let payload = s.subrange(4, 4 + n);
        assert(payload =~= p0);
        assert(s.subrange(4 + n, 4 + n + digest_size()) =~= digest_of(absorbed + p0));
        assert(s.subrange(4 + n, 4 + n + digest_size()) == digest_of(absorbed + payload));
        assert(n != 0);
        assert(s.skip(4 + n + digest_size()) =~= s2);
        lemma_decode_past_frames(absorbed + p0, rest, suffix);
        assert(pieces.flatten() == p0 + rest.flatten());
        assert(absorbed + p0 + rest.flatten() =~= absorbed + pieces.flatten());
        let after = decode_frames(suffix, absorbed + pieces.flatten());
        assert(decode_frames(s, absorbed).0 == after.0);
        assert(decode_frames(s, absorbed).1 == payload + (rest.flatten() + after.1));
        assert(payload + (rest.flatten() + after.1) =~= pieces.flatten() + after.1);
    }
}

/// Frame runs compose piece by piece: appending one more piece to a run of
/// frames appends exactly that piece's frame, taken over everything absorbed
/// so far. This is the bridge between the encapsulator's one-piece-at-a-time
/// contract and the wire encoding of a whole piece sequence.
pub proof fn lemma_frames_snoc(absorbed: Seq<u8>, pieces: Seq<Seq<u8>>, piece: Seq<u8>)
    ensures
        frames_seq(absorbed, pieces.push(piece)) == frames_seq(absorbed, pieces) + frame_seq(
            absorbed + pieces.flatten(),
            piece,
        ),
    decreases pieces.len(),
{
    if pieces.len() == 0 {
        assert(pieces.push(piece).first() == piece);
        assert(pieces.push(piece).drop_first() =~= Seq::<Seq<u8>>::empty());
        assert(frames_seq(absorbed + piece, Seq::empty()) =~= Seq::<u8>::empty());
        assert(frames_seq(absorbed, pieces.push(piece)) =~= frame_seq(absorbed, piece));
        assert(absorbed + pieces.flatten() =~= absorbed);
        assert(frames_seq(absorbed, pieces) + frame_seq(absorbed, piece) =~= frame_seq(
            absorbed,
            piece,
        ));
    } else {
        let p0 = pieces.first();
        let rest = pieces.drop_first();
        assert(pieces.push(piece).first() == p0);
        assert(pieces.push(piece).drop_first() =~= rest.push(piece));
        lemma_frames_snoc(absorbed + p0, rest, piece);
        assert(pieces.flatten() == p0 + rest.flatten());
        assert(absorbed + p0 + rest.flatten() =~= absorbed + pieces.flatten());
        assert(frame_seq(absorbed, p0) + (frames_seq(absorbed + p0, rest) + frame_seq(
            absorbed + pieces.flatten(),
            piece,
        )) =~= frames_seq(absorbed, pieces) + frame_seq(absorbed + pieces.flatten(), piece));
    }
}

/// Round-trip: a stream encoded from pieces within the encoder's size bound
/// decodes successfully, and the decoder forwards exactly the concatenation
/// of the pieces — `decode` of `encode` is the identity on the payload.
pub proof fn lemma_round_trip(pieces: Seq<Seq<u8>>)
    requires
        forall|i: int| 0 <= i < pieces.len() ==> 0 < (#[trigger] pieces[i]).len() <= piece_size(),
    ensures
        spec_decode(encoding_of(pieces)).0 == Ok::<(), ReliableWriteError>(()),
        spec_decode(encoding_of(pieces)).1 == pieces.flatten(),
{
    let e = encoding_of(pieces);
    let flat = pieces.flatten();
    let suffix = terminator_seq(flat) + digest_of(flat);
    assert(e.len() >= magic_seq().len());
    assert(e.subrange(0, magic_seq().len() as int) =~= magic_seq());
    assert(e.skip(magic_seq().len() as int) =~= frames_seq(Seq::empty(), pieces) + suffix);
    assert(forall|i: int|
        0 <= i < pieces.len() ==> 0 < (#[trigger] pieces[i]).len() <= max_piece_size());
    lemma_decode_past_frames(Seq::empty(), pieces, suffix);
    assert(Seq::<u8>::empty() + flat =~= flat);
    lemma_decode_terminator(flat);
    assert(spec_decode(e).1 =~= flat);
}

/// Checkpoint determinism: the checkpoint the encoder embeds after piece `i`
/// is the digest of exactly the piece bytes up to and including piece `i` —
/// the same value a decoder recomputes independently from that prefix alone.
pub proof fn lemma_checkpoint_determinism(pieces: Seq<Seq<u8>>, i: int)
    requires
        0 <= i < pieces.len(),
    ensures
        frame_seq(pieces.take(i).flatten(), pieces[i]) == be32_bytes(pieces[i].len() as u32)
            + pieces[i] + digest_of(pieces.take(i + 1).flatten()),
{
    assert(pieces.take(i + 1) =~= pieces.take(i).push(pieces[i]));
    pieces.take(i).lemma_flatten_push(pieces[i]);
}

/// Oversize rejection: a declared length field one past the hard limit is a
/// ProtocolError whatever bytes follow it — the decoder abandons the stream
/// at the length field, forwarding nothing and never reading a payload byte.
pub proof fn lemma_oversize_rejected(tail: Seq<u8>)
    ensures
        spec_decode(magic_seq() + be32_bytes((max_piece_size() + 1) as u32) + tail).0 == Err::<
            (),
            ReliableWriteError,
        >(ReliableWriteError::ProtocolError),
        spec_decode(magic_seq() + be32_bytes((max_piece_size() + 1) as u32) + tail).1 == Seq::<
            u8,
        >::empty(),
{
    let s = magic_seq() + be32_bytes((max_piece_size() + 1) as u32) + tail;
    assert(s.len() >= magic_seq().len());
    assert(s.subrange(0, magic_seq().len() as int) =~= magic_seq());
    let frames = s.skip(magic_seq().len() as int);
    assert(frames =~= be32_bytes((max_piece_size() + 1) as u32) + tail);
    assert(frames.subrange(0, 4) =~= be32_bytes((max_piece_size() + 1) as u32));
    lemma_be32_round_trip((max_piece_size() + 1) as u32);
}

/// Truncation rejection: a stream cut off right after a piece's payload,
/// before its checkpoint, is a ReadError; the unverified payload had already
/// been forwarded to the sink, so the commit layer must discard it.
pub proof fn lemma_truncation_rejected(pieces: Seq<Seq<u8>>, i: int)
    requires
        forall|j: int| 0 <= j < pieces.len() ==> 0 < (#[trigger] pieces[j]).len() <= max_piece_size(),
        0 <= i < pieces.len(),
    ensures
        spec_decode(
            magic_seq() + frames_seq(Seq::empty(), pieces.take(i)) + be32_bytes(
                pieces[i].len() as u32,
            ) + pieces[i],
        ).0 == Err::<(), ReliableWriteError>(ReliableWriteError::ReadError),
        spec_decode(
            magic_seq() + frames_seq(Seq::empty(), pieces.take(i)) + be32_bytes(
                pieces[i].len() as u32,
            ) + pieces[i],
        ).1 == pieces.take(i + 1).flatten(),
{
    let prefix = pieces.take(i);
    let n = pieces[i].len() as int;
    let suffix = be32_bytes(pieces[i].len() as u32) + pieces[i];
    let s = magic_seq() + frames_seq(Seq::empty(), prefix) + suffix;
    assert(s =~= magic_seq() + frames_seq(Seq::empty(), pieces.take(i)) + be32_bytes(
        pieces[i].len() as u32,
    ) + pieces[i]);
    assert(0 < pieces[i].len() <= max_piece_size());
    assert(s.len() >= magic_seq().len());
    assert(s.subrange(0, magic_seq().len() as int) =~= magic_seq());
    assert(s.skip(magic_seq().len() as int) =~= frames_seq(Seq::empty(), prefix) + suffix);
    assert(forall|j: int|
        0 <= j < prefix.len() ==> 0 < (#[trigger] prefix[j]).len() <= max_piece_size());
    lemma_decode_past_frames(Seq::empty(), prefix, suffix);
    let absorbed = Seq::<u8>::empty() + prefix.flatten();
    assert(suffix.len() == 4 + n);
    assert(suffix.subrange(0, 4) =~= be32_bytes(pieces[i].len() as u32));
    lemma_be32_round_trip(pieces[i].len() as u32);
    assert(be32_value(suffix.subrange(0, 4)) as int == n);
    assert(suffix.subrange(4, 4 + n) =~= pieces[i]);
    assert(suffix.len() < 4 + n + digest_size());
    assert(decode_frames(suffix, absorbed).1 == pieces[i]);
    assert(pieces.take(i + 1) =~= prefix.push(pieces[i]));
    prefix.lemma_flatten_push(pieces[i]);
    assert(prefix.flatten() + decode_frames(suffix, absorbed).1 =~= pieces.take(i + 1).flatten());
}

/// Tamper detection for checkpoint regions: if the fixed-size block following
/// piece `i`'s payload differs anywhere from the true running digest — a
/// single flipped bit is enough — the stream decodes to an IntegrityError,
/// never a silent success, whatever bytes follow.
pub proof fn lemma_checkpoint_tamper_rejected(
    pieces: Seq<Seq<u8>>,
    i: int,
    bad: Seq<u8>,
    rest: Seq<u8>,
)
    requires
        forall|j: int| 0 <= j < pieces.len() ==> 0 < (#[trigger] pieces[j]).len() <= max_piece_size(),
        0 <= i < pieces.len(),
        bad.len() == digest_size(),
        bad != digest_of(pieces.take(i + 1).flatten()),
    ensures
        spec_decode(
            magic_seq() + frames_seq(Seq::empty(), pieces.take(i)) + be32_bytes(
                pieces[i].len() as u32,
            ) + pieces[i] + bad + rest,
        ).0 == Err::<(), ReliableWriteError>(ReliableWriteError::IntegrityError),
{
    let prefix = pieces.take(i);
    let n = pieces[i].len() as int;
    let suffix = be32_bytes(pieces[i].len() as u32) + pieces[i] + bad + rest;
    let s = magic_seq() + frames_seq(Seq::empty(), prefix) + suffix;
    assert(s =~= magic_seq() + frames_seq(Seq::empty(), pieces.take(i)) + be32_bytes(
        pieces[i].len() as u32,
    ) + pieces[i] + bad + rest);
    assert(0 < pieces[i].len() <= max_piece_size());
    assert(s.len() >= magic_seq().len());
    assert(s.subrange(0, magic_seq().len() as int) =~= magic_seq());
    assert(s.skip(magic_seq().len() as int) =~= frames_seq(Seq::empty(), prefix) + suffix);
    assert(forall|j: int|
        0 <= j < prefix.len() ==> 0 < (#[trigger] prefix[j]).len() <= max_piece_size());
    lemma_decode_past_frames(Seq::empty(), prefix, suffix);
    let absorbed = Seq::<u8>::empty() + prefix.flatten();
    assert(suffix.len() == 4 + n + digest_size() + rest.len());
    assert(suffix.subrange(0, 4) =~= be32_bytes(pieces[i].len() as u32));
    lemma_be32_round_trip(pieces[i].len() as u32);
    assert(be32_value(suffix.subrange(0, 4)) as int == n);
    let payload = suffix.subrange(4, 4 + n);
    assert(payload =~= pieces[i]);
    assert(suffix.subrange(4 + n, 4 + n + digest_size()) =~= bad);
    assert(pieces.take(i + 1) =~= prefix.push(pieces[i]));
    prefix.lemma_flatten_push(pieces[i]);
    assert(absorbed + payload =~= pieces.take(i + 1).flatten());
    assert(suffix.subrange(4 + n, 4 + n + digest_size()) != digest_of(absorbed + payload));
}

} // verus!
