//! The digest adapter: a streaming accumulator over a fixed-size
//! cryptographic hash, exposing `absorb`, `checkpoint` and `output_size`.

use vstd::prelude::*;

verus! {

/// Number of bytes in a checkpoint produced by the digest accumulator.
pub open spec fn digest_size() -> int {
    32
}

/// The bytes a digest accumulator has absorbed so far, in order.
pub uninterp spec fn absorbed_of(d: Digest256) -> Seq<u8>;

/// Byte `i` of the digest of `s`: a pure function of `s` alone, the same in
/// every process and on every machine.
pub uninterp spec fn digest_byte(s: Seq<u8>, i: int) -> u8;

/// The digest of `s`: the fixed-size checkpoint value a decoder recomputes
/// deterministically from the ordered bytes absorbed so far.
pub open spec fn digest_of(s: Seq<u8>) -> Seq<u8> {
    Seq::new(digest_size() as nat, |i: int| digest_byte(s, i))
}

/// A streaming digest accumulator. Absorbing is order-sensitive and
/// irreversible; a checkpoint can be read at any moment without disturbing
/// the ability to keep absorbing.
///
/// Holds a `sha2::Sha256` accumulator; that type is an alias into deeply
/// generic wrapper types, so it lives in a hidden field and every operation
/// on it goes through the trusted methods below.
#[verifier::external_body]
pub struct Digest256 {
    inner: sha2::Sha256,
}

impl Digest256 {
    /// Relies on `sha2::Sha256::new`: a fresh accumulator has absorbed nothing.
    #[verifier::external_body]
    pub fn new() -> (d: Digest256)
        ensures
            absorbed_of(d) == Seq::<u8>::empty(),
    {
        Digest256 { inner: <sha2::Sha256 as sha2::Digest>::new() }
    }

    /// Relies on `sha2::Sha256::update`: feeding more bytes appends them to
    /// the accumulated input.
    #[verifier::external_body]
    pub fn absorb(&mut self, bytes: &[u8])
        ensures
            absorbed_of(*final(self)) == absorbed_of(*old(self)) + bytes@,
    {
        <sha2::Sha256 as sha2::Digest>::update(&mut self.inner, bytes)
    }

    /// Relies on `sha2::Sha256::finalize` on a clone of the accumulator: the
    /// 32-byte output depends on the absorbed bytes alone, and the original
    /// accumulator is left undisturbed.
    #[verifier::external_body]
    pub fn checkpoint(&self) -> (r: Vec<u8>)
        ensures
            r@ == digest_of(absorbed_of(*self)),
            forall|i: int| 0 <= i < digest_size() ==> r@[i] == digest_byte(absorbed_of(*self), i),
    {
        <sha2::Sha256 as sha2::Digest>::finalize(self.inner.clone()).to_vec()
    }

    /// The fixed size in bytes of every checkpoint this accumulator yields.
    pub fn output_size(&self) -> (r: usize)
        ensures
            r as int == digest_size(),
    {
        32
    }
}

} // verus!
