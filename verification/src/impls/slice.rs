//! Byte slices.

use vstd::prelude::*;
use crate::impls::reach;
use crate::impls::reached;
use crate::Buffer;
use crate::BufferRef;
use crate::ToBufferRef;

verus! {

/// The holder of a submitted byte slice.
///
/// A slice has no length of its own that could grow: what is committed stands
/// at its start, and the slice stays as long as it was.
pub struct SliceBuffer<'data> {
    slice: &'data mut [u8],
    origin: Ghost<Seq<u8>>,
    start: usize,
    initialized: usize,
}

impl<'d> SliceBuffer<'d> {
    spec fn end(&self) -> nat {
        reached(self.start as nat, self.initialized as nat, self.slice@.len())
    }

    /// Submits `slice`. What it lends out is the whole slice.
    pub fn new(slice: &'d mut [u8]) -> (r: SliceBuffer<'d>)
        ensures
            r.wf(),
            r.origin() == old(slice)@,
            r.pending() == Seq::<u8>::empty(),
            r.room() == old(slice)@,
            &*final(r.owner()) == &*final(slice),
    {
        let ghost origin = slice@;
        SliceBuffer { slice: slice, origin: Ghost(origin), start: 0, initialized: 0 }
    }

    /// Lends out the part of the slice behind what is pending.
    pub fn buffer<'s>(&'s mut self) -> (b: BufferRef<'s, 's>)
        requires
            old(self).wf(),
        ensures
            b.wf(),
            b@ == Seq::<u8>::empty(),
            b.spare() == old(self).room(),
            final(self).wf(),
            final(self).origin() == old(self).origin(),
            &*final(final(self).owner()) == &*final(old(self).owner()),
            *final(b.cursor()) <= final(b.span())@.len() == b.capacity() ==> {
                &&& final(self).pending() == old(self).pending() + final(b.span())@.take(
                    *final(b.cursor()) as int,
                )
                &&& final(self).room() == final(b.span())@.skip(*final(b.cursor()) as int)
            },
    {
        let end: usize = reach(self.start, self.initialized, self.slice.len());
        self.start = end;
        self.initialized = 0;
        let (_head, tail) = self.slice.split_at_mut(end);
        BufferRef::new(tail, &mut self.initialized)
    }

    /// Ends the submission and returns what is pending. The slice is left as
    /// it stands: what is pending, and behind it the room that is left.
    pub fn finish(self) -> (s: &'d [u8])
        requires
            self.wf(),
        ensures
            s@ == self.pending(),
            final(self.owner())@ == self.pending() + self.room(),
    {
        let end: usize = reach(self.start, self.initialized, self.slice.len());
        let SliceBuffer { slice, origin: _, start: _, initialized: _ } = self;
        let (head, _tail) = slice.split_at(end);
        head
    }
}

impl<'d> ToBufferRef<'d> for SliceBuffer<'d> {
    type Owner = [u8];

    open spec fn contents(owner: &[u8]) -> Seq<u8> {
        owner@
    }

    open spec fn settles(origin: Seq<u8>, pending: Seq<u8>, rest: Seq<u8>, after: &[u8]) -> bool {
        after@ == pending + rest
    }

    closed spec fn wf(&self) -> bool {
        self.start <= self.slice@.len()
    }

    closed spec fn owner(&self) -> &'d mut [u8] {
        self.slice
    }

    closed spec fn origin(&self) -> Seq<u8> {
        self.origin@
    }

    closed spec fn pending(&self) -> Seq<u8> {
        self.slice@.take(self.end() as int)
    }

    closed spec fn room(&self) -> Seq<u8> {
        self.slice@.skip(self.end() as int)
    }

    /// A holder without a cap holds nothing back.
    open spec fn beyond(&self) -> Seq<u8> {
        Seq::empty()
    }

    fn to_buffer_ref<'s>(&'s mut self) -> (b: BufferRef<'s, 's>) {
        self.buffer()
    }

    fn finish(self) -> (s: &'d [u8]) {
        SliceBuffer::finish(self)
    }
}

impl<'d> Buffer<'d> for &'d mut [u8] {
    type Intermediate = SliceBuffer<'d>;

    open spec fn owner(self) -> &'d mut [u8] {
        self
    }

    open spec fn ready(self) -> bool {
        true
    }

    open spec fn lends(self, room: Seq<u8>, beyond: Seq<u8>) -> bool {
        &&& room == self@
        &&& beyond == Seq::<u8>::empty()
    }

    fn to_to_buffer_ref(self) -> (a: SliceBuffer<'d>) {
        SliceBuffer::new(self)
    }
}

} // verus!
