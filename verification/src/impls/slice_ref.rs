//! Borrowed byte slices, which are cut down to what was written.

use vstd::prelude::*;
use crate::impls::reach;
use crate::impls::reached;
use crate::Buffer;
use crate::BufferRef;
use crate::ToBufferRef;

verus! {

/// The holder of a submitted borrow of a byte slice.
///
/// In the end the borrowed slice is replaced by its start: by what was
/// committed.
pub struct SliceRefBuffer<'ref_, 'data> {
    slice: &'ref_ mut &'data mut [u8],
    origin: Ghost<Seq<u8>>,
    start: usize,
    initialized: usize,
}

impl<'r, 'd> SliceRefBuffer<'r, 'd> {
    spec fn end(&self) -> nat {
        reached(self.start as nat, self.initialized as nat, self.slice@.len())
    }

    /// Submits `slice`. What it lends out is the whole slice.
    pub fn new(slice: &'r mut &'d mut [u8]) -> (r: SliceRefBuffer<'r, 'd>)
        ensures
            r.wf(),
            r.origin() == old(slice)@,
            r.pending() == Seq::<u8>::empty(),
            r.room() == old(slice)@,
            &*final(r.owner()) == &*final(slice),
    {
        let ghost origin = slice@;
        SliceRefBuffer { slice: slice, origin: Ghost(origin), start: 0, initialized: 0 }
    }

    /// Lends out the part of the slice behind what is pending.
    pub fn buffer<'s>(&'s mut self) -> (b: BufferRef<'s, 's>)
        requires
            old(self).wf(),
        ensures
            b.wf(),
            b@ == Seq::<u8>::empty(),
            b.spare() == old(self).room(),
            final(self).wf(),
            final(self).origin() == old(self).origin(),
            &*final(final(self).owner()) == &*final(old(self).owner()),
            *final(b.cursor()) <= final(b.span())@.len() == b.capacity() ==> {
                &&& final(self).pending() == old(self).pending() + final(b.span())@.take(
                    *final(b.cursor()) as int,
                )
                &&& final(self).room() == final(b.span())@.skip(*final(b.cursor()) as int)
            },
    {
        let end: usize = reach(self.start, self.initialized, self.slice.len());
        self.start = end;
        self.initialized = 0;
        let (_head, tail) = self.slice.split_at_mut(end);
        BufferRef::new(tail, &mut self.initialized)
    }

    /// Cuts the borrowed slice down to what is pending, and returns that.
    /// The storage behind it is given up as it stands.
    pub fn finish(self) -> (s: &'r [u8])
        requires
            self.wf(),
        ensures
            s@ == self.pending(),
            final(self.owner())@ == self.pending(),
            final(*self.owner())@ == final(*final(self.owner()))@ + self.room(),
    {
        let end: usize = reach(self.start, self.initialized, self.slice.len());
        let SliceRefBuffer { slice, origin: _, start: _, initialized: _ } = self;
        let mut whole: &'d mut [u8] = &mut [];
        core::mem::swap(slice, &mut whole);
        let (head, _tail) = whole.split_at_mut(end);
        *slice = head;
        let (all, _none) = slice.split_at(end);
        all
    }
}

impl<'r, 'd> ToBufferRef<'r> for SliceRefBuffer<'r, 'd> {
    type Owner = &'d mut [u8];

    open spec fn contents(owner: &&'d mut [u8]) -> Seq<u8> {
        owner@
    }

    open spec fn settles(
        origin: Seq<u8>,
        pending: Seq<u8>,
        rest: Seq<u8>,
        after: &&'d mut [u8],
    ) -> bool {
        after@ == pending
    }

    closed spec fn wf(&self) -> bool {
        self.start <= self.slice@.len()
    }

    closed spec fn owner(&self) -> &'r mut &'d mut [u8] {
        self.slice
    }

    closed spec fn origin(&self) -> Seq<u8> {
        self.origin@
    }

    closed spec fn pending(&self) -> Seq<u8> {
        self.slice@.take(self.end() as int)
    }

    closed spec fn room(&self) -> Seq<u8> {
        self.slice@.skip(self.end() as int)
    }

    /// A holder without a cap holds nothing back.
    open spec fn beyond(&self) -> Seq<u8> {
        Seq::empty()
    }

    fn to_buffer_ref<'s>(&'s mut self) -> (b: BufferRef<'s, 's>) {
        self.buffer()
    }

    fn finish(self) -> (s: &'r [u8]) {
        SliceRefBuffer::finish(self)
    }
}

impl<'r, 'd> Buffer<'r> for &'r mut &'d mut [u8] {
    type Intermediate = SliceRefBuffer<'r, 'd>;

    open spec fn owner(self) -> &'r mut &'d mut [u8] {
        self
    }

    open spec fn ready(self) -> bool {
        true
    }

    open spec fn lends(self, room: Seq<u8>, beyond: Seq<u8>) -> bool {
        &&& room == self@
        &&& beyond == Seq::<u8>::empty()
    }

    fn to_to_buffer_ref(self) -> (a: SliceRefBuffer<'r, 'd>) {
        SliceRefBuffer::new(self)
    }
}

} // verus!
