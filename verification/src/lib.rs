//! Write-only access to the spare room of byte containers.
//!
//! A [`BufferRef`] is a borrowed byte region together with a borrowed cursor
//! that counts how many bytes, from the start of the region, have been
//! committed. Bytes go in through the reference; only the committed prefix
//! ever comes out.
//!
//! A container that has spare room implements [`Buffer`]. It is submitted to
//! a holder, which implements [`ToBufferRef`]: the holder lends out the spare
//! room as a `BufferRef`, as often as is wanted, and in the end commits to
//! the container what was committed through the references. [`with_buffer`]
//! does all of this around one call of a function.
//!
//! A contract speaks of what a reference was when it ended: of the last value
//! of its cursor and of its region. What it says of the bytes committed holds
//! where the reference ended with its cursor within its region and its region
//! as long as it was lent out. Every function of `BufferRef` keeps it so;
//! `BufferRef::initialized` says so of the reference that it ends, and
//! `BufferRef::lemma_dropped` of one that is dropped.

use vstd::prelude::*;
use vstd::std_specs::iter::IteratorSpec;

pub mod impls;
pub mod laws;
pub mod traits;

pub use impls::arrayvec::ArrayBytes;
pub use impls::arrayvec::ArrayVecBuffer;
pub use impls::buffer_ref::BufferRefBuffer;
pub use impls::cap_at::CapAt;
pub use impls::cap_at::CapAtBuffer;
pub use impls::slice::SliceBuffer;
pub use impls::slice_ref::SliceRefBuffer;
pub use impls::vec::VecBuffer;
pub use traits::finish_read;
pub use traits::read_buffer_ref;
pub use traits::read_into;
pub use traits::ReadBuffer;
pub use traits::ReadBufferMarker;
pub use traits::ReadBufferRef;

verus! {

/// More bytes were supplied than the reference had room for.
#[derive(Clone, Copy, Debug, Eq, Hash, Ord, PartialEq, PartialOrd)]
pub struct CapacityError;

/// A reference to a partially committed byte region.
///
/// The cursor splits the region: the bytes before it are committed, the
/// bytes from it on are spare room.
pub struct BufferRef<'data, 'size> {
    buffer: &'data mut [u8],
    initialized_: &'size mut usize,
}

impl<'d, 's> View for BufferRef<'d, 's> {
    type V = Seq<u8>;

    /// The committed bytes.
    closed spec fn view(&self) -> Seq<u8> {
        self.buffer@.take(*self.initialized_ as int)
    }
}

impl<'d, 's> BufferRef<'d, 's> {
    /// The reference's invariant: the cursor lies within the region.
    pub closed spec fn wf(&self) -> bool {
        *self.initialized_ <= self.buffer@.len()
    }

    /// What the region holds from the cursor on.
    pub closed spec fn spare(&self) -> Seq<u8> {
        self.buffer@.skip(*self.initialized_ as int)
    }

    /// The length of the whole region.
    pub open spec fn capacity(&self) -> nat {
        self@.len() + self.spare().len()
    }

    /// The borrowed cursor. Its last value is where the reference ended.
    pub closed spec fn cursor(&self) -> &'s mut usize {
        self.initialized_
    }

    /// The borrowed region. Its last value is what the reference left behind.
    pub closed spec fn span(&self) -> &'d mut [u8] {
        self.buffer
    }

    /// `after` is this reference once `bytes` were written to it: as many of
    /// them as there was room for are committed, in order.
    pub open spec fn written(&self, bytes: Seq<u8>, after: &BufferRef) -> bool {
        let n = fitting(bytes.len(), self.spare().len());
        &&& after@ == self@ + bytes.take(n)
        &&& after.spare() == self.spare().skip(n)
    }

    /// A reference that is dropped ends as it stands: with the cursor behind
    /// what it has committed, and the region holding what it held.
    pub proof fn lemma_dropped(self)
        requires
            self.wf(),
            has_resolved(self),
        ensures
            *final(self.cursor()) == self@.len(),
            final(self.span())@ == self@ + self.spare(),
    {
    }

    /// Creates a reference over `buffer` that counts in `initialized`, which
    /// must be zero.
    pub fn new(buffer: &'d mut [u8], initialized: &'s mut usize) -> (r: BufferRef<'d, 's>)
        requires
            *old(initialized) == 0,
        ensures
            r.wf(),
            r@ == Seq::<u8>::empty(),
            r.spare() == old(buffer)@,
            *final(r.cursor()) == *final(initialized),
            final(r.span())@ == final(buffer)@,
    {
        BufferRef { buffer: buffer, initialized_: initialized }
    }

    /// Moves the cursor `num_bytes` to the right, committing what the spare
    /// room holds there. There must be that much spare room.
    pub fn advance(&mut self, num_bytes: usize)
        requires
            old(self).wf(),
            num_bytes <= old(self).spare().len(),
        ensures
            final(self).wf(),
            final(self)@ == old(self)@ + old(self).spare().take(num_bytes as int),
            final(self).spare() == old(self).spare().skip(num_bytes as int),
            *final(final(self).cursor()) == *final(old(self).cursor()),
            final(final(self).span())@ == final(old(self).span())@,
    {
        let len: usize = self.buffer.len();
        assert(*self.initialized_ + num_bytes <= len);
        *self.initialized_ = *self.initialized_ + num_bytes;
    }

    /// Writes the bytes that `bytes` yields into the spare room, until it ends
    /// or yields a byte for which there is no room. Such a byte is an error;
    /// what was written before it stays committed.
    pub fn extend<I>(&mut self, bytes: I) -> (r: Result<(), CapacityError>) where
        I: Iterator<Item = u8>,

        requires
            old(self).wf(),
        ensures
            final(self).wf(),
            final(self).capacity() == old(self).capacity(),
            old(self)@.is_prefix_of(final(self)@),
            r is Err ==> final(self).spare().len() == 0,
            bytes.obeys_prophetic_iter_laws() ==> {
                &&& r is Ok <==> bytes.remaining().len() <= old(self).spare().len()
                &&& old(self).written(bytes.remaining(), final(self))
            },
            *final(final(self).cursor()) == *final(old(self).cursor()),
            final(final(self).span())@ == final(old(self).span())@,
    {
        let ghost obeys = bytes.obeys_prophetic_iter_laws();
        let ghost items = bytes.remaining();
        let mut rest = bytes;
        let len: usize = self.buffer.len();
        let start: usize = *self.initialized_;
        let mut i: usize = 0;
        loop
            invariant
                len == self.buffer@.len(),
                len == old(self).buffer@.len(),
                start == *old(self).initialized_,
                *self.initialized_ == start + i,
                start + i <= len,
                forall|j: int| 0 <= j < start ==> self.buffer@[j] == old(self).buffer@[j],
                forall|j: int| start + i <= j < len ==> self.buffer@[j] == old(self).buffer@[j],
                obeys == bytes.obeys_prophetic_iter_laws(),
                items == bytes.remaining(),
                rest.obeys_prophetic_iter_laws() == obeys,
                obeys ==> {
                    &&& i <= items.len()
                    &&& rest.remaining() == items.skip(i as int)
                    &&& forall|j: int| 0 <= j < i ==> self.buffer@[start + j] == items[j]
                    &&& self@ == old(self)@ + items.take(i as int)
                    &&& self.spare() == old(self).spare().skip(i as int)
                },
                *final(self.initialized_) == *final(old(self).initialized_),
                final(self.buffer)@ == final(old(self).buffer)@,
            decreases len - start - i,
        {
            match rest.next() {
                None => {
                    return Ok(());
                },
                Some(b) => {
                    if start + i == len {
                        return Err(CapacityError);
                    }
                    self.buffer[start + i] = b;
                    *self.initialized_ = start + i + 1;
                    i = i + 1;
                },
            }
        }
    }

    /// Writes the byte slice into the spare room, as far as it fits. That it
    /// does not fit is an error; what did fit stays committed.
    pub fn write(&mut self, bytes: &[u8]) -> (r: Result<(), CapacityError>)
        requires
            old(self).wf(),
        ensures
            final(self).wf(),
            r is Ok <==> bytes@.len() <= old(self).spare().len(),
            old(self).written(bytes@, final(self)),
            *final(final(self).cursor()) == *final(old(self).cursor()),
            final(final(self).span())@ == final(old(self).span())@,
    {
        let len: usize = self.buffer.len();
        let start: usize = *self.initialized_;
        let mut i: usize = 0;
        while i < bytes.len() && start + i < len
            invariant
                len == self.buffer@.len(),
                len == old(self).buffer@.len(),
                start == *old(self).initialized_,
                *self.initialized_ == start + i,
                i <= bytes@.len(),
                start + i <= len,
                forall|j: int| 0 <= j < start ==> self.buffer@[j] == old(self).buffer@[j],
                forall|j: int| 0 <= j < i ==> self.buffer@[start + j] == bytes@[j],
                forall|j: int| start + i <= j < len ==> self.buffer@[j] == old(self).buffer@[j],
                *final(self.initialized_) == *final(old(self).initialized_),
                final(self.buffer)@ == final(old(self).buffer)@,
            decreases bytes@.len() - i,
        {
            self.buffer[start + i] = bytes[i];
            *self.initialized_ = start + i + 1;
            i = i + 1;
        }
        assert(self@ =~= old(self)@ + bytes@.take(i as int));
        assert(self.spare() =~= old(self).spare().skip(i as int));
        if i < bytes.len() {
            Err(CapacityError)
        } else {
            Ok(())
        }
    }

    /// The spare room, for a writer that reports by `advance` how much it
    /// wrote.
    pub fn uninitialized_mut(&mut self) -> (r: &mut [u8])
        requires
            old(self).wf(),
        ensures
            final(self).wf(),
            r@ == old(self).spare(),
            final(self)@ == old(self)@,
            final(self).spare() == final(r)@,
            *final(final(self).cursor()) == *final(old(self).cursor()),
            final(final(self).span())@ == final(old(self).span())@,
    {
        let n: usize = *self.initialized_;
        let (_head, tail) = self.buffer.split_at_mut(n);
        tail
    }

    /// Ends the reference and returns the committed bytes.
    pub fn initialized(self) -> (s: &'d [u8])
        requires
            self.wf(),
        ensures
            s@ == self@,
            *final(self.cursor()) == self@.len(),
            final(self.span())@ == self@ + self.spare(),
    {
        let BufferRef { buffer, initialized_ } = self;
        let n: usize = *initialized_;
        let (head, _tail) = buffer.split_at_mut(n);
        head
    }

    /// The committed bytes, for the holder that has to hand them on.
    pub(crate) fn committed(&self) -> (s: &[u8])
        requires
            self.wf(),
        ensures
            s@ == self@,
    {
        let n: usize = *self.initialized_;
        let (head, _tail) = self.buffer.split_at(n);
        head
    }

    /// The number of spare bytes.
    pub fn remaining(&self) -> (n: usize)
        requires
            self.wf(),
        ensures
            n == self.spare().len(),
    {
        self.buffer.len() - *self.initialized_
    }

    /// A reference over the first `index` bytes of the region, or over all of
    /// it where it is shorter. Nothing must be committed yet.
    pub fn cap_at(self, index: usize) -> (r: BufferRef<'d, 's>)
        requires
            self.wf(),
            self@.len() == 0,
        ensures
            r.wf(),
            r@ == Seq::<u8>::empty(),
            r.spare() == self.spare().take(fitting(index as nat, self.spare().len())),
            *final(self.cursor()) == *final(r.cursor()),
            final(self.span())@ == final(r.span())@ + self.spare().skip(
                fitting(index as nat, self.spare().len()),
            ),
    {
        let BufferRef { buffer, initialized_ } = self;
        let len: usize = buffer.len();
        let at: usize = if index < len { index } else { len };
        let (head, _tail) = buffer.split_at_mut(at);
        BufferRef { buffer: head, initialized_: initialized_ }
    }
}

/// Submits `buffer`, hands `f` a reference to its spare room, and commits to
/// the container what `f` left committed there.
///
/// `f` is called once, with a reference that has nothing committed and that
/// the container may lend out. What is said of the container holds where `f`
/// let the reference end with its cursor within its region.
pub fn with_buffer<'a, T: Buffer<'a>, F, R>(buffer: T, f: F) -> (r: R) where
    F: for<'b> FnOnce(BufferRef<'b, 'b>) -> R,

    requires
        buffer.ready(),
        forall|b: BufferRef, beyond: Seq<u8>|
            b.wf() && b@ == Seq::<u8>::empty() && #[trigger] buffer.lends(b.spare(), beyond)
                ==> call_requires(f, (b,)),
    ensures
        exists|b: BufferRef, beyond: Seq<u8>|
            {
                &&& b.wf()
                &&& b@ == Seq::<u8>::empty()
                &&& #[trigger] buffer.lends(b.spare(), beyond)
                &&& call_ensures(f, (b,), r)
                &&& *final(b.cursor()) <= final(b.span())@.len() == b.capacity()
                    ==> T::Intermediate::settles(
                    T::Intermediate::contents(buffer.owner()),
                    final(b.span())@.take(*final(b.cursor()) as int),
                    final(b.span())@.skip(*final(b.cursor()) as int) + beyond,
                    final(buffer.owner()),
                )
            },
{
    let mut intermediate = buffer.to_to_buffer_ref();
    let r = f(intermediate.to_buffer_ref());
    intermediate.finish();
    r
}

/// A byte container, or a borrow of one, that can lend out its spare room.
pub trait Buffer<'data>: Sized {
    /// What stands between the container and the references to its spare
    /// room.
    type Intermediate: ToBufferRef<'data>;

    /// The borrowed container.
    spec fn owner(self) -> &'data mut <Self::Intermediate as ToBufferRef<'data>>::Owner;

    /// The container is fit to be submitted.
    spec fn ready(self) -> bool;

    /// The container may have spare room that holds `room` and, behind it,
    /// `beyond`, of which it lends out `room`.
    spec fn lends(self, room: Seq<u8>, beyond: Seq<u8>) -> bool;

    /// Submits the container: nothing is pending yet.
    fn to_to_buffer_ref(self) -> (a: Self::Intermediate)
        requires
            self.ready(),
        ensures
            a.wf(),
            a.origin() == Self::Intermediate::contents(self.owner()),
            a.pending() == Seq::<u8>::empty(),
            self.lends(a.room(), a.beyond()),
            &*final(a.owner()) == &*final(self.owner()),
    ;

    /// Caps the spare room that the container lends out at `len` bytes.
    fn cap_at(self, len: usize) -> (c: CapAt<'data, Self>)
        ensures
            c.inner() == self,
            c.limit() == len,
    {
        CapAt::new(self, len)
    }
}

/// The holder of a submitted container: it lends out the spare room, and in
/// the end commits to the container what was written there.
pub trait ToBufferRef<'data>: Sized {
    /// The container.
    type Owner: ?Sized;

    /// The bytes that a container holds for its users.
    spec fn contents(owner: &Self::Owner) -> Seq<u8>;

    /// `after` is a container that held `origin`, once `pending` was
    /// committed to it and its spare room was left holding `rest`.
    spec fn settles(origin: Seq<u8>, pending: Seq<u8>, rest: Seq<u8>, after: &Self::Owner) -> bool;

    /// The holder's own invariant.
    spec fn wf(&self) -> bool;

    /// The borrowed container.
    spec fn owner(&self) -> &'data mut Self::Owner;

    /// What the container held when it was submitted.
    spec fn origin(&self) -> Seq<u8>;

    /// What was committed through the references that have ended.
    spec fn pending(&self) -> Seq<u8>;

    /// What the spare room holds that is lent out next.
    spec fn room(&self) -> Seq<u8>;

    /// What the spare room holds behind that.
    spec fn beyond(&self) -> Seq<u8>;

    /// Lends out the spare room that is left. What the reference has
    /// committed when it ends is pending from then on.
    fn to_buffer_ref<'size>(&'size mut self) -> (b: BufferRef<'size, 'size>)
        requires
            old(self).wf(),
        ensures
            b.wf(),
            b@ == Seq::<u8>::empty(),
            b.spare() == old(self).room(),
            final(self).wf(),
            final(self).origin() == old(self).origin(),
            &*final(final(self).owner()) == &*final(old(self).owner()),
            *final(b.cursor()) <= final(b.span())@.len() == b.capacity() ==> {
                &&& final(self).pending() == old(self).pending() + final(b.span())@.take(
                    *final(b.cursor()) as int,
                )
                &&& final(self).room() + final(self).beyond() == final(b.span())@.skip(
                    *final(b.cursor()) as int,
                ) + old(self).beyond()
            },
    ;

    /// Commits to the container what is pending, and returns it.
    fn finish(self) -> (s: &'data [u8])
        requires
            self.wf(),
        ensures
            s@ == self.pending(),
            Self::settles(
                self.origin(),
                self.pending(),
                self.room() + self.beyond(),
                final(self.owner()),
            ),
    ;
}

/// How many of `supplied` bytes go into `room` bytes of spare room.
pub open spec fn fitting(supplied: nat, room: nat) -> int {
    if supplied <= room {
        supplied as int
    } else {
        room as int
    }
}

} // verus!
