//! Containers whose spare room is capped.

use vstd::prelude::*;
use crate::fitting;
use crate::Buffer;
use crate::BufferRef;
use crate::ToBufferRef;
use std::marker::PhantomData;

verus! {

/// A container that lends out no more than a fixed number of bytes of its
/// spare room at a time.
pub struct CapAt<'data, T> {
    buf: T,
    cap_at: usize,
    phantom: PhantomData<&'data ()>,
}

impl<'data, T> CapAt<'data, T> {
    /// The capped container.
    pub closed spec fn inner(self) -> T {
        self.buf
    }

    /// The cap.
    pub closed spec fn limit(self) -> usize {
        self.cap_at
    }

    /// Caps `buf` at `len` bytes.
    pub fn new(buf: T, len: usize) -> (c: CapAt<'data, T>)
        ensures
            c.inner() == buf,
            c.limit() == len,
    {
        CapAt { buf: buf, cap_at: len, phantom: PhantomData }
    }
}

/// The holder of a submitted `CapAt`.
///
/// It lends out what the holder of the capped container lends out, cut down
/// to the cap.
pub struct CapAtBuffer<'data, T: ToBufferRef<'data>> {
    intermediate: T,
    cap_at: usize,
    phantom: PhantomData<&'data ()>,
}

impl<'data, T: ToBufferRef<'data>> CapAtBuffer<'data, T> {
    /// The holder of the capped container.
    pub closed spec fn inner(&self) -> T {
        self.intermediate
    }

    /// The cap.
    pub closed spec fn limit(&self) -> usize {
        self.cap_at
    }

    /// Submits the capped container.
    pub fn new<U: Buffer<'data, Intermediate = T>>(cap_at: CapAt<'data, U>) -> (r: CapAtBuffer<
        'data,
        T,
    >)
        requires
            cap_at.inner().ready(),
        ensures
            r.limit() == cap_at.limit(),
            r.wf(),
            r.origin() == T::contents(cap_at.inner().owner()),
            r.pending() == Seq::<u8>::empty(),
            cap_at.inner().lends(r.inner().room(), r.inner().beyond()),
            &*final(r.owner()) == &*final(cap_at.inner().owner()),
    {
        CapAtBuffer {
            intermediate: cap_at.buf.to_to_buffer_ref(),
            cap_at: cap_at.cap_at,
            phantom: PhantomData,
        }
    }

    /// Lends out the spare room that is left, up to the cap.
    pub fn buffer<'size>(&'size mut self) -> (b: BufferRef<'size, 'size>)
        requires
            old(self).wf(),
        ensures
            b.wf(),
            b@ == Seq::<u8>::empty(),
            b.spare() == old(self).room(),
            b.capacity() <= old(self).limit(),
            final(self).wf(),
            final(self).limit() == old(self).limit(),
            final(self).origin() == old(self).origin(),
            &*final(final(self).owner()) == &*final(old(self).owner()),
            *final(b.cursor()) <= final(b.span())@.len() == b.capacity() ==> {
                &&& final(self).pending() == old(self).pending() + final(b.span())@.take(
                    *final(b.cursor()) as int,
                )
                &&& final(self).room() + final(self).beyond() == final(b.span())@.skip(
                    *final(b.cursor()) as int,
                ) + old(self).beyond()
            },
    {
        let ghost held = self.intermediate.beyond();
        let lent = self.intermediate.to_buffer_ref();
        let ghost tail = lent.spare().skip(fitting(self.cap_at as nat, lent.spare().len()));
        proof {
            assert forall|span: Seq<u8>, n: int| 0 <= n <= span.len() implies #[trigger] (span
                + tail).take(n) == span.take(n) by {
                assert((span + tail).take(n) =~= span.take(n));
            }
            assert forall|span: Seq<u8>, n: int| 0 <= n <= span.len() implies #[trigger] (span
                + tail).skip(n) + held == span.skip(n) + (tail + held) by {
                assert((span + tail).skip(n) + held =~= span.skip(n) + (tail + held));
            }
        }
        lent.cap_at(self.cap_at)
    }

    /// Commits to the container what is pending, and returns it.
    pub fn finish(self) -> (s: &'data [u8])
        requires
            self.wf(),
        ensures
            s@ == self.pending(),
            T::settles(
                self.origin(),
                self.pending(),
                self.room() + self.beyond(),
                final(self.owner()),
            ),
    {
        proof {
            let all = self.intermediate.room();
            assert(self.room() + self.beyond() =~= all + self.intermediate.beyond());
        }
        self.intermediate.finish()
    }
}

impl<'data, T: Buffer<'data>> Buffer<'data> for CapAt<'data, T> {
    type Intermediate = CapAtBuffer<'data, T::Intermediate>;

    open spec fn owner(self) -> &'data mut <T::Intermediate as ToBufferRef<'data>>::Owner {
        self.inner().owner()
    }

    open spec fn ready(self) -> bool {
        self.inner().ready()
    }

    open spec fn lends(self, room: Seq<u8>, beyond: Seq<u8>) -> bool {
        exists|all: Seq<u8>, held: Seq<u8>|
            {
                &&& #[trigger] self.inner().lends(all, held)
                &&& room == all.take(fitting(self.limit() as nat, all.len()))
                &&& beyond == all.skip(fitting(self.limit() as nat, all.len())) + held
            }
    }

    fn to_to_buffer_ref(self) -> (a: Self::Intermediate) {
        CapAtBuffer::new(self)
    }
}

impl<'data, T: ToBufferRef<'data>> ToBufferRef<'data> for CapAtBuffer<'data, T> {
    type Owner = T::Owner;

    open spec fn contents(owner: &T::Owner) -> Seq<u8> {
        T::contents(owner)
    }

    open spec fn settles(origin: Seq<u8>, pending: Seq<u8>, rest: Seq<u8>, after: &T::Owner) -> bool {
        T::settles(origin, pending, rest, after)
    }

    open spec fn wf(&self) -> bool {
        self.inner().wf()
    }

    open spec fn owner(&self) -> &'data mut T::Owner {
        self.inner().owner()
    }

    open spec fn origin(&self) -> Seq<u8> {
        self.inner().origin()
    }

    open spec fn pending(&self) -> Seq<u8> {
        self.inner().pending()
    }

    open spec fn room(&self) -> Seq<u8> {
        self.inner().room().take(fitting(self.limit() as nat, self.inner().room().len()))
    }

    open spec fn beyond(&self) -> Seq<u8> {
        self.inner().room().skip(fitting(self.limit() as nat, self.inner().room().len()))
            + self.inner().beyond()
    }

    fn to_buffer_ref<'size>(&'size mut self) -> (b: BufferRef<'size, 'size>) {
        self.buffer()
    }

    fn finish(self) -> (s: &'data [u8]) {
        CapAtBuffer::finish(self)
    }
}

} // verus!
