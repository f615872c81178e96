//! What holds of every reference and of every submission.
//!
//! What is pending when a submission ends is what the references that were
//! lent out had committed when they ended, one after the other: the laws on
//! submissions say what the container then is.

use vstd::prelude::*;
use crate::ArrayBytes;
use crate::ArrayVecBuffer;
use crate::Buffer;
use crate::BufferRef;
use crate::BufferRefBuffer;
use crate::CapAt;
use crate::SliceBuffer;
use crate::SliceRefBuffer;
use crate::ToBufferRef;
use crate::VecBuffer;

verus! {

/// Bytes that fit into the spare room are all committed, in the order given
/// and behind what was committed before, and the spare room shrinks by their
/// number. Through a reference that had nothing committed, exactly the bytes
/// written are committed.
pub proof fn law_write_within_room<'a, 'b, 'c, 'd>(
    before: BufferRef<'a, 'b>,
    bytes: Seq<u8>,
    after: BufferRef<'c, 'd>,
)
    requires
        before.written(bytes, &after),
        bytes.len() <= before.spare().len(),
    ensures
        after@ == before@ + bytes,
        after.spare().len() == before.spare().len() - bytes.len(),
        before@.len() == 0 ==> after@ == bytes,
{
}

/// Of bytes that do not fit into the spare room, exactly the prefix that
/// fills it is committed, and it stays committed.
pub proof fn law_write_beyond_room<'a, 'b, 'c, 'd>(
    before: BufferRef<'a, 'b>,
    bytes: Seq<u8>,
    after: BufferRef<'c, 'd>,
)
    requires
        before.written(bytes, &after),
        bytes.len() > before.spare().len(),
    ensures
        after@ == before@ + bytes.take(before.spare().len() as int),
        after@.len() == before@.len() + before.spare().len(),
        after.spare().len() == 0,
{
}

/// A capped container lends out no more room than its cap: a reference to
/// that room never has more bytes committed than the cap, and where fewer
/// are committed, it is those.
pub proof fn law_cap_bounds_commit<'a, 'b, 'd, T: Buffer<'d>>(
    capped: CapAt<'d, T>,
    room: Seq<u8>,
    beyond: Seq<u8>,
    view: BufferRef<'a, 'b>,
)
    requires
        capped.lends(room, beyond),
        view.capacity() == room.len(),
    ensures
        room.len() <= capped.limit(),
        view@.len() <= capped.limit(),
{
}

/// A source that reports `reported` bytes has exactly that many more bytes
/// committed, behind those that were committed before.
pub proof fn law_read_commits_what_was_reported<'a, 'b>(before: BufferRef<'a, 'b>, reported: nat)
    requires
        reported <= before.spare().len(),
    ensures
        (before@ + before.spare().take(reported as int)).len() == before@.len() + reported,
        before@.is_prefix_of(before@ + before.spare().take(reported as int)),
{
}

/// A vector that was submitted holds in the end what it held before and,
/// behind it, what was committed: its length grew by the number of those
/// bytes.
pub proof fn law_vec_grows_by_pending(
    origin: Seq<u8>,
    pending: Seq<u8>,
    rest: Seq<u8>,
    after: Vec<u8>,
)
    requires
        VecBuffer::settles(origin, pending, rest, &after),
    ensures
        after@.len() == origin.len() + pending.len(),
        origin.is_prefix_of(after@),
        after@.skip(origin.len() as int) == pending,
{
}

/// A vector of fixed capacity that was submitted grew by what was committed.
pub proof fn law_arrayvec_grows_by_pending<const CAP: usize>(
    origin: Seq<u8>,
    pending: Seq<u8>,
    rest: Seq<u8>,
    after: ArrayBytes<CAP>,
)
    requires
        ArrayVecBuffer::<CAP>::settles(origin, pending, rest, &after),
    ensures
        after@.len() == origin.len() + pending.len(),
        origin.is_prefix_of(after@),
        after@.skip(origin.len() as int) == pending,
{
}

/// A reference that was submitted has in the end committed what it had
/// committed before and, behind it, what was committed through the
/// references to its spare room. Its spare room is shorter by as much.
pub proof fn law_nested_grows_by_pending<'a, 'b>(
    origin: Seq<u8>,
    pending: Seq<u8>,
    rest: Seq<u8>,
    after: BufferRef<'a, 'b>,
)
    requires
        BufferRefBuffer::settles(origin, pending, rest, &after),
    ensures
        after@.len() == origin.len() + pending.len(),
        origin.is_prefix_of(after@),
        after@.skip(origin.len() as int) == pending,
        after.spare().len() == (pending + rest).len() - pending.len(),
        after.capacity() == origin.len() + (pending + rest).len(),
{
}

/// A borrowed slice that was submitted is in the end exactly what was
/// committed.
pub proof fn law_slice_ref_is_cut_to_pending<'a>(
    origin: Seq<u8>,
    pending: Seq<u8>,
    rest: Seq<u8>,
    after: &&'a mut [u8],
)
    requires
        SliceRefBuffer::settles(origin, pending, rest, after),
    ensures
        SliceRefBuffer::contents(after) == pending,
        SliceRefBuffer::contents(after).len() == pending.len(),
{
}

/// A slice that was submitted holds in the end what was committed and,
/// behind it, what was left of its room.
pub proof fn law_slice_starts_with_pending(
    origin: Seq<u8>,
    pending: Seq<u8>,
    rest: Seq<u8>,
    after: &[u8],
)
    requires
        SliceBuffer::settles(origin, pending, rest, after),
    ensures
        after@.len() == (pending + rest).len(),
        after@.take(pending.len() as int) == pending,
        after@.skip(pending.len() as int) == rest,
{
}

} // verus!
