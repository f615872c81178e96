//! Vectors of fixed capacity: `arrayvec::ArrayVec`.

use vstd::prelude::*;
use crate::impls::reach;
use crate::impls::reached;
use crate::Buffer;
use crate::BufferRef;
use crate::ToBufferRef;

verus! {

/// `arrayvec::ArrayVec`, carried as it is.
#[verifier::external_type_specification]
#[verifier::external_body]
#[verifier::reject_recursive_types(T)]
pub struct ExArrayVec<T, const CAP: usize>(::arrayvec::ArrayVec<T, CAP>);

/// An `arrayvec::ArrayVec` of at most `CAP` bytes, together with what it
/// holds.
///
/// What the vector holds is its view: `held` stands for what `vec` holds,
/// and the functions that call into `arrayvec` are believed to keep it so.
/// Nothing is known of what a vector holds that was made elsewhere; of one
/// that was made or changed here, what the functions below say.
pub struct ArrayBytes<const CAP: usize> {
    vec: ::arrayvec::ArrayVec<u8, CAP>,
    held: Ghost<Seq<u8>>,
}

impl<const CAP: usize> View for ArrayBytes<CAP> {
    type V = Seq<u8>;

    /// The bytes that the vector holds.
    closed spec fn view(&self) -> Seq<u8> {
        self.held@
    }
}

impl<const CAP: usize> ArrayBytes<CAP> {
    /// `ArrayVec::new`: an empty vector. It panics where `CAP` is more than
    /// the length of a vector can be, which is `u32::MAX`.
    #[verifier::external_body]
    fn empty() -> (r: ArrayBytes<CAP>)
        requires
            CAP <= u32::MAX,
        ensures
            r@ == Seq::<u8>::empty(),
    {
        ArrayBytes { vec: ::arrayvec::ArrayVec::new(), held: Ghost(Seq::empty()) }
    }

    /// Takes an `ArrayVec` as it is: of what it holds nothing is said but
    /// that it is no more than `CAP` bytes.
    #[verifier::external_body]
    fn holding(vec: ::arrayvec::ArrayVec<u8, CAP>) -> (r: ArrayBytes<CAP>)
        ensures
            r@.len() <= CAP,
    {
        ArrayBytes { vec: vec, held: Ghost(Seq::empty()) }
    }

    /// `ArrayVec::len`: the number of bytes that the vector holds, which is
    /// never more than `CAP`.
    #[verifier::external_body]
    fn count(&self) -> (n: usize)
        ensures
            n == self@.len(),
            n <= CAP,
    {
        self.vec.len()
    }

    /// `ArrayVec::as_slice`: the bytes that the vector holds.
    #[verifier::external_body]
    fn bytes(&self) -> (s: &[u8])
        ensures
            s@ == self@,
    {
        self.vec.as_slice()
    }

    /// An empty vector. `CAP` must be no more than the length of a vector can
    /// be, which is `u32::MAX`.
    pub fn new() -> (r: ArrayBytes<CAP>)
        requires
            CAP <= u32::MAX,
        ensures
            r@ == Seq::<u8>::empty(),
    {
        ArrayBytes::empty()
    }

    /// Takes over a vector that was made elsewhere.
    pub fn from_arrayvec(vec: ::arrayvec::ArrayVec<u8, CAP>) -> (r: ArrayBytes<CAP>)
        ensures
            r@.len() <= CAP,
    {
        ArrayBytes::holding(vec)
    }

    /// Gives the vector up.
    pub fn into_arrayvec(self) -> ::arrayvec::ArrayVec<u8, CAP> {
        self.vec
    }

    /// The number of bytes that the vector holds.
    pub fn len(&self) -> (n: usize)
        ensures
            n == self@.len(),
            n <= CAP,
    {
        self.count()
    }

    /// The number of bytes that the vector can hold.
    pub fn capacity(&self) -> (n: usize)
        ensures
            n == CAP,
    {
        CAP
    }

    /// The bytes that the vector holds.
    pub fn as_slice(&self) -> (s: &[u8])
        ensures
            s@ == self@,
    {
        self.bytes()
    }

    /// `ArrayVec::as_mut_slice`: the bytes that the vector holds, to be
    /// changed in place.
    #[verifier::external_body]
    fn as_mut_slice(&mut self) -> (s: &mut [u8])
        ensures
            s@ == old(self)@,
            final(self)@ == final(s)@,
    {
        self.vec.as_mut_slice()
    }

    /// `ArrayVec::push`: appends a byte. It panics where the vector is
    /// full.
    #[verifier::external_body]
    fn push(&mut self, byte: u8)
        requires
            old(self)@.len() < CAP,
        ensures
            final(self)@ == old(self)@.push(byte),
    {
        self.vec.push(byte)
    }

    /// `ArrayVec::truncate`: keeps the first `len` bytes, or all where there
    /// are fewer.
    #[verifier::external_body]
    fn truncate(&mut self, len: usize)
        ensures
            final(self)@ == if len < old(self)@.len() {
                old(self)@.take(len as int)
            } else {
                old(self)@
            },
    {
        self.vec.truncate(len)
    }
}

/// The holder of a submitted `ArrayBytes`.
///
/// While the vector is submitted, it is filled up to its capacity with zero
/// bytes, and the room that it lends out is part of it. In the end the vector
/// is cut down to what it held and what was committed; a holder that is given
/// up without `finish` leaves the vector full.
pub struct ArrayVecBuffer<'data, const CAP: usize> {
    vec: &'data mut ArrayBytes<CAP>,
    len: usize,
    start: usize,
    initialized: usize,
}

impl<'d, const CAP: usize> ArrayVecBuffer<'d, CAP> {
    spec fn end(&self) -> nat {
        reached(self.start as nat, self.initialized as nat, self.vec@.len())
    }

    /// Submits `vec`. What it lends out is the room between what it holds and
    /// its capacity.
    pub fn new(vec: &'d mut ArrayBytes<CAP>) -> (r: ArrayVecBuffer<'d, CAP>)
        ensures
            r.wf(),
            r.origin() == old(vec)@,
            r.pending() == Seq::<u8>::empty(),
            r.room().len() + old(vec)@.len() == CAP,
            &*final(r.owner()) == &*final(vec),
    {
        let len: usize = vec.len();
        let mut filled: usize = len;
        while filled < CAP
            invariant
                len <= filled <= CAP,
                filled == vec@.len(),
                vec@.take(len as int) == old(vec)@,
            decreases CAP - filled,
        {
            vec.push(0);
            filled = filled + 1;
        }
        ArrayVecBuffer { vec: vec, len: len, start: len, initialized: 0 }
    }

    /// Lends out the room behind what the vector held and what is pending.
    pub fn buffer<'s>(&'s mut self) -> (b: BufferRef<'s, 's>)
        requires
            old(self).wf(),
        ensures
            b.wf(),
            b@ == Seq::<u8>::empty(),
            b.spare() == old(self).room(),
            final(self).wf(),
            final(self).origin() == old(self).origin(),
            &*final(final(self).owner()) == &*final(old(self).owner()),
            *final(b.cursor()) <= final(b.span())@.len() == b.capacity() ==> {
                &&& final(self).pending() == old(self).pending() + final(b.span())@.take(
                    *final(b.cursor()) as int,
                )
                &&& final(self).room() == final(b.span())@.skip(*final(b.cursor()) as int)
            },
    {
        let end: usize = reach(self.start, self.initialized, self.vec.len());
        self.start = end;
        self.initialized = 0;
        let (_head, tail) = self.vec.as_mut_slice().split_at_mut(end);
        BufferRef::new(tail, &mut self.initialized)
    }

    /// Cuts the vector down to what it held and what is pending, and returns
    /// what was pending.
    pub fn finish(self) -> (s: &'d [u8])
        requires
            self.wf(),
        ensures
            s@ == self.pending(),
            final(self.owner())@ == self.origin() + self.pending(),
    {
        let end: usize = reach(self.start, self.initialized, self.vec.len());
        let ArrayVecBuffer { vec, len, start: _, initialized: _ } = self;
        vec.truncate(end);
        let (_head, tail) = vec.as_slice().split_at(len);
        tail
    }
}

impl<'d, const CAP: usize> ToBufferRef<'d> for ArrayVecBuffer<'d, CAP> {
    type Owner = ArrayBytes<CAP>;

    open spec fn contents(owner: &ArrayBytes<CAP>) -> Seq<u8> {
        owner@
    }

    open spec fn settles(
        origin: Seq<u8>,
        pending: Seq<u8>,
        rest: Seq<u8>,
        after: &ArrayBytes<CAP>,
    ) -> bool {
        after@ == origin + pending
    }

    closed spec fn wf(&self) -> bool {
        self.len <= self.start <= self.vec@.len()
    }

    closed spec fn owner(&self) -> &'d mut ArrayBytes<CAP> {
        self.vec
    }

    closed spec fn origin(&self) -> Seq<u8> {
        self.vec@.take(self.len as int)
    }

    closed spec fn pending(&self) -> Seq<u8> {
        self.vec@.subrange(self.len as int, self.end() as int)
    }

    closed spec fn room(&self) -> Seq<u8> {
        self.vec@.skip(self.end() as int)
    }

    /// A holder without a cap holds nothing back.
    open spec fn beyond(&self) -> Seq<u8> {
        Seq::empty()
    }

    fn to_buffer_ref<'s>(&'s mut self) -> (b: BufferRef<'s, 's>) {
        self.buffer()
    }

    fn finish(self) -> (s: &'d [u8]) {
        ArrayVecBuffer::finish(self)
    }
}

impl<'d, const CAP: usize> Buffer<'d> for &'d mut ArrayBytes<CAP> {
    type Intermediate = ArrayVecBuffer<'d, CAP>;

    open spec fn owner(self) -> &'d mut ArrayBytes<CAP> {
        self
    }

    open spec fn ready(self) -> bool {
        true
    }

    /// The room is as long as the capacity leaves; what it holds is not part
    /// of what the vector holds.
    open spec fn lends(self, room: Seq<u8>, beyond: Seq<u8>) -> bool {
        &&& room.len() + self@.len() == CAP
        &&& beyond == Seq::<u8>::empty()
    }

    fn to_to_buffer_ref(self) -> (a: ArrayVecBuffer<'d, CAP>) {
        ArrayVecBuffer::new(self)
    }
}

} // verus!
