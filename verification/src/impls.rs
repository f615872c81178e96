//! The containers that can lend out their spare room, each with its holder.
//!
//! A holder keeps two counts beside the container: where the room that it
//! lends out next begins, and the cursor that it lends to the reference to
//! that room. When it lends out room again, the first moves on by the second.
//! A cursor counts as far as the room goes that it was lent out with.

use vstd::prelude::*;

pub mod arrayvec;
pub mod buffer_ref;
pub mod cap_at;
pub mod slice;
pub mod slice_ref;
pub mod vec;

verus! {

/// The place that `count` bytes from `start` on reach in `limit` bytes of
/// storage: never beyond its end.
pub open spec fn reached(start: nat, count: nat, limit: nat) -> nat {
    if start + count <= limit {
        start + count
    } else {
        limit
    }
}

/// The place that `count` bytes from `start` on reach in `limit` bytes of
/// storage.
pub(crate) fn reach(start: usize, count: usize, limit: usize) -> (end: usize)
    requires
        start <= limit,
    ensures
        end == reached(start as nat, count as nat, limit as nat),
        start <= end <= limit,
{
    if count <= limit - start {
        start + count
    } else {
        limit
    }
}

} // verus!
