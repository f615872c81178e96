//! Growable vectors.

use vstd::prelude::*;
use crate::impls::reach;
use crate::impls::reached;
use crate::Buffer;
use crate::BufferRef;
use crate::ToBufferRef;

verus! {

/// `Vec::capacity`: how many bytes the vector can hold without allocating
/// again, which is never less than it holds.
#[verifier::external_body]
fn capacity(vec: &Vec<u8>) -> (n: usize)
    ensures
        n >= vec@.len(),
{
    vec.capacity()
}

/// The holder of a submitted `Vec`.
///
/// While the vector is submitted, the room that it lends out is part of it,
/// filled with zero bytes. In the end the vector is cut down to what it held
/// and what was committed; a holder that is given up without `finish` leaves
/// the vector as long as its room.
pub struct VecBuffer<'data> {
    vec: &'data mut Vec<u8>,
    len: usize,
    start: usize,
    initialized: usize,
}

impl<'data> VecBuffer<'data> {
    spec fn end(&self) -> nat {
        reached(self.start as nat, self.initialized as nat, self.vec@.len())
    }

    /// Submits `vec`. What it lends out is its spare capacity.
    pub fn new(vec: &'data mut Vec<u8>) -> (r: VecBuffer<'data>)
        ensures
            r.wf(),
            r.origin() == old(vec)@,
            r.pending() == Seq::<u8>::empty(),
            &*final(r.owner()) == &*final(vec),
    {
        let room: usize = capacity(vec);
        VecBuffer::with_capacity(vec, room)
    }

    /// Submits `vec` as a vector with room for `capacity` bytes in all: what
    /// it lends out is the room behind what it holds.
    pub fn with_capacity(vec: &'data mut Vec<u8>, capacity: usize) -> (r: VecBuffer<'data>)
        ensures
            r.wf(),
            r.origin() == old(vec)@,
            r.pending() == Seq::<u8>::empty(),
            r.room().len() == if capacity >= old(vec)@.len() {
                capacity - old(vec)@.len()
            } else {
                0
            },
            &*final(r.owner()) == &*final(vec),
    {
        let len: usize = vec.len();
        if capacity > len {
            vec.resize(capacity, 0);
        }
        VecBuffer { vec: vec, len: len, start: len, initialized: 0 }
    }

    /// Lends out the room behind what the vector held and what is pending.
    pub fn buffer<'size>(&'size mut self) -> (b: BufferRef<'size, 'size>)
        requires
            old(self).wf(),
        ensures
            b.wf(),
            b@ == Seq::<u8>::empty(),
            b.spare() == old(self).room(),
            final(self).wf(),
            final(self).origin() == old(self).origin(),
            &*final(final(self).owner()) == &*final(old(self).owner()),
            *final(b.cursor()) <= final(b.span())@.len() == b.capacity() ==> {
                &&& final(self).pending() == old(self).pending() + final(b.span())@.take(
                    *final(b.cursor()) as int,
                )
                &&& final(self).room() == final(b.span())@.skip(*final(b.cursor()) as int)
            },
    {
        let end: usize = reach(self.start, self.initialized, self.vec.len());
        self.start = end;
        self.initialized = 0;
        let (_head, tail) = self.vec.as_mut_slice().split_at_mut(end);
        BufferRef::new(tail, &mut self.initialized)
    }

    /// Cuts the vector down to what it held and what is pending, and returns
    /// what was pending.
    pub fn finish(self) -> (s: &'data [u8])
        requires
            self.wf(),
        ensures
            s@ == self.pending(),
            final(self.owner())@ == self.origin() + self.pending(),
    {
        let end: usize = reach(self.start, self.initialized, self.vec.len());
        let VecBuffer { vec, len, start: _, initialized: _ } = self;
        vec.truncate(end);
        let (_head, tail) = vec.as_slice().split_at(len);
        tail
    }
}

impl<'data> ToBufferRef<'data> for VecBuffer<'data> {
    type Owner = Vec<u8>;

    open spec fn contents(owner: &Vec<u8>) -> Seq<u8> {
        owner@
    }

    open spec fn settles(origin: Seq<u8>, pending: Seq<u8>, rest: Seq<u8>, after: &Vec<u8>) -> bool {
        after@ == origin + pending
    }

    closed spec fn wf(&self) -> bool {
        self.len <= self.start <= self.vec@.len()
    }

    closed spec fn owner(&self) -> &'data mut Vec<u8> {
        self.vec
    }

    closed spec fn origin(&self) -> Seq<u8> {
        self.vec@.take(self.len as int)
    }

    closed spec fn pending(&self) -> Seq<u8> {
        self.vec@.subrange(self.len as int, self.end() as int)
    }

    closed spec fn room(&self) -> Seq<u8> {
        self.vec@.skip(self.end() as int)
    }

    /// A holder without a cap holds nothing back.
    open spec fn beyond(&self) -> Seq<u8> {
        Seq::empty()
    }

    fn to_buffer_ref<'size>(&'size mut self) -> (b: BufferRef<'size, 'size>) {
        self.buffer()
    }

    fn finish(self) -> (s: &'data [u8]) {
        VecBuffer::finish(self)
    }
}

impl<'data> Buffer<'data> for &'data mut Vec<u8> {
    type Intermediate = VecBuffer<'data>;

    open spec fn owner(self) -> &'data mut Vec<u8> {
        self
    }

    open spec fn ready(self) -> bool {
        true
    }

    /// How much spare capacity a vector has, and what it holds, is not part
    /// of what the vector holds.
    open spec fn lends(self, room: Seq<u8>, beyond: Seq<u8>) -> bool {
        beyond == Seq::<u8>::empty()
    }

    fn to_to_buffer_ref(self) -> (a: VecBuffer<'data>) {
        VecBuffer::new(self)
    }
}

} // verus!
