//! A self-verifying streaming container format.
//!
//! An encoder wraps a sequence of byte pieces into a framed wire format in
//! which every piece is followed by a checkpoint of a running digest over all
//! piece bytes so far; a decoder re-derives the same running digest, verifies
//! every checkpoint, and rejects a corrupt or truncated stream wholesale.

use vstd::prelude::*;

pub mod decode;
pub mod digest;
pub mod encap;
pub mod laws;
pub mod sink;
pub mod wire;

pub use decode::copy_out;
pub use digest::Digest256;
pub use encap::EncapPhase;
pub use encap::ReliableEncap;

verus! {

/// The fault taxonomy of the container format.
#[derive(Clone, Copy, PartialEq, Eq, Structural, Debug)]
pub enum ReliableWriteError {
    /// A checkpoint on the wire did not match the locally recomputed digest.
    IntegrityError,
    /// The stream is malformed or hostile: bad prologue, or a declared piece
    /// length above the hard limit.
    ProtocolError,
    /// The source ended prematurely mid-frame.
    ReadError,
    /// The underlying sink failed to accept bytes.
    WriteError,
}

} // verus!
