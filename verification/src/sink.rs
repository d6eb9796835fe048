//! The naming relation of the atomic sink discipline: a decoder writes to a
//! staging path derived from the destination path by a fixed suffix, and the
//! staging file is atomically renamed to the destination only on success.

use vstd::prelude::*;

verus! {

/// The fixed suffix appended to a destination path to form its staging path:
/// the bytes of ".tmp".
pub open spec fn staging_suffix() -> Seq<u8> {
    seq![46u8, 116u8, 109u8, 112u8]
}

/// The staging path for a destination path: the destination path plus the
/// fixed suffix. The decoder writes there; only a successful decode may
/// publish it under the destination path itself.
pub fn staging_path(dest: &[u8]) -> (r: Vec<u8>)
    ensures
        r@ == dest@ + staging_suffix(),
{
    let mut r = vstd::slice::slice_to_vec(dest);
    r.push(46u8);
    r.push(116u8);
    r.push(109u8);
    r.push(112u8);
    proof {
        assert(r@ =~= dest@ + staging_suffix());
    }
    r
}

} // verus!
