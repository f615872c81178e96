//! References to the spare room of other references.

use vstd::prelude::*;
use crate::impls::reach;
use crate::impls::reached;
use crate::Buffer;
use crate::BufferRef;
use crate::ToBufferRef;

verus! {

/// The holder of a submitted `BufferRef`.
///
/// It lends out the spare room of the outer reference, and in the end
/// advances the outer reference by what was committed there.
pub struct BufferRefBuffer<'ref_, 'data, 'size> {
    buffer: &'ref_ mut BufferRef<'data, 'size>,
    start: usize,
    initialized: usize,
}

impl<'r, 'd, 's> BufferRefBuffer<'r, 'd, 's> {
    spec fn end(&self) -> nat {
        reached(self.start as nat, self.initialized as nat, self.buffer.spare().len())
    }

    /// Submits `buffer`. What it lends out is the spare room of `buffer`.
    pub fn new(buffer: &'r mut BufferRef<'d, 's>) -> (r: BufferRefBuffer<'r, 'd, 's>)
        requires
            old(buffer).wf(),
        ensures
            r.wf(),
            r.origin() == old(buffer)@,
            r.pending() == Seq::<u8>::empty(),
            r.room() == old(buffer).spare(),
            &*final(r.owner()) == &*final(buffer),
    {
        BufferRefBuffer { buffer: buffer, start: 0, initialized: 0 }
    }

    /// Lends out the spare room of the outer reference behind what is
    /// pending.
    pub fn buffer<'a>(&'a mut self) -> (b: BufferRef<'a, 'a>)
        requires
            old(self).wf(),
        ensures
            b.wf(),
            b@ == Seq::<u8>::empty(),
            b.spare() == old(self).room(),
            final(self).wf(),
            final(self).origin() == old(self).origin(),
            &*final(final(self).owner()) == &*final(old(self).owner()),
            *final(b.cursor()) <= final(b.span())@.len() == b.capacity() ==> {
                &&& final(self).pending() == old(self).pending() + final(b.span())@.take(
                    *final(b.cursor()) as int,
                )
                &&& final(self).room() == final(b.span())@.skip(*final(b.cursor()) as int)
            },
    {
        let end: usize = reach(self.start, self.initialized, self.buffer.remaining());
        self.start = end;
        self.initialized = 0;
        let (_head, tail) = self.buffer.uninitialized_mut().split_at_mut(end);
        BufferRef::new(tail, &mut self.initialized)
    }

    /// Advances the outer reference by what is pending, and returns that.
    pub fn finish(self) -> (s: &'r [u8])
        requires
            self.wf(),
        ensures
            s@ == self.pending(),
            (*final(self.owner())).wf(),
            final(self.owner())@ == self.origin() + self.pending(),
            (*final(self.owner())).spare() == self.room(),
            *final((*final(self.owner())).cursor()) == *final(self.owner().cursor()),
            final((*final(self.owner())).span())@ == final(self.owner().span())@,
    {
        let end: usize = reach(self.start, self.initialized, self.buffer.remaining());
        let BufferRefBuffer { buffer, start: _, initialized: _ } = self;
        buffer.advance(end);
        let all = buffer.committed();
        let (_head, tail) = all.split_at(all.len() - end);
        tail
    }
}

impl<'r, 'd, 's> ToBufferRef<'r> for BufferRefBuffer<'r, 'd, 's> {
    type Owner = BufferRef<'d, 's>;

    open spec fn contents(owner: &BufferRef<'d, 's>) -> Seq<u8> {
        owner@
    }

    open spec fn settles(
        origin: Seq<u8>,
        pending: Seq<u8>,
        rest: Seq<u8>,
        after: &BufferRef<'d, 's>,
    ) -> bool {
        &&& after.wf()
        &&& after@ == origin + pending
        &&& after.spare() == rest
    }

    closed spec fn wf(&self) -> bool {
        &&& self.buffer.wf()
        &&& self.start <= self.buffer.spare().len()
    }

    closed spec fn owner(&self) -> &'r mut BufferRef<'d, 's> {
        self.buffer
    }

    closed spec fn origin(&self) -> Seq<u8> {
        self.buffer@
    }

    closed spec fn pending(&self) -> Seq<u8> {
        self.buffer.spare().take(self.end() as int)
    }

    closed spec fn room(&self) -> Seq<u8> {
        self.buffer.spare().skip(self.end() as int)
    }

    /// A holder without a cap holds nothing back.
    open spec fn beyond(&self) -> Seq<u8> {
        Seq::empty()
    }

    fn to_buffer_ref<'a>(&'a mut self) -> (b: BufferRef<'a, 'a>) {
        self.buffer()
    }

    fn finish(self) -> (s: &'r [u8]) {
        BufferRefBuffer::finish(self)
    }
}

impl<'r, 'd, 's> Buffer<'r> for &'r mut BufferRef<'d, 's> {
    type Intermediate = BufferRefBuffer<'r, 'd, 's>;

    open spec fn owner(self) -> &'r mut BufferRef<'d, 's> {
        self
    }

    open spec fn ready(self) -> bool {
        (*self).wf()
    }

    open spec fn lends(self, room: Seq<u8>, beyond: Seq<u8>) -> bool {
        &&& room == self.spare()
        &&& beyond == Seq::<u8>::empty()
    }

    fn to_to_buffer_ref(self) -> (a: BufferRefBuffer<'r, 'd, 's>) {
        BufferRefBuffer::new(self)
    }
}

} // verus!
