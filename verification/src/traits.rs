//! Reading from byte sources into spare room.

use vstd::prelude::*;
use crate::fitting;
use crate::Buffer;
use crate::BufferRef;
use crate::ToBufferRef;
use std::io::Error;

verus! {

/// `std::io::Error`, carried through unread.
#[verifier::external_type_specification]
#[verifier::external_body]
pub struct ExError(std::io::Error);

/// A byte source that fills the span it is handed from the start, and never
/// reads what the span held before.
///
/// What its reads may do is the source's to say, in `reads`: a slice says
/// exactly what is read, a borrowed or boxed source says what the source
/// says, and a source that is at the mercy of the world says nothing.
pub trait ReadBufferMarker {
    /// What one read may do: handed a span that holds `span`, this source
    /// may leave it holding `filled`, be `after` from then on, and return
    /// `r`. Of a source that says nothing of its reads, any read may do
    /// anything.
    open spec fn reads(
        &self,
        span: Seq<u8>,
        after: &Self,
        filled: Seq<u8>,
        r: Result<usize, Error>,
    ) -> bool {
        true
    }

    /// Fills a prefix of `buf` and says how long it is.
    fn read(&mut self, buf: &mut [u8]) -> (r: Result<usize, Error>)
        ensures
            final(buf)@.len() == old(buf)@.len(),
            r matches Ok(n) ==> n <= old(buf)@.len(),
            old(self).reads(old(buf)@, final(self), final(buf)@, r),
    ;
}

/// Commits to `buf` what a source reported to have written to its spare
/// room, and returns what is then committed.
pub fn read_into<'d, 's>(buf: BufferRef<'d, 's>, outcome: Result<usize, Error>) -> (r: Result<
    &'d [u8],
    Error,
>)
    requires
        buf.wf(),
        outcome matches Ok(n) ==> n <= buf.spare().len(),
    ensures
        match outcome {
            Ok(n) => {
                &&& r matches Ok(s) && s@ == buf@ + buf.spare().take(n as int)
                &&& *final(buf.cursor()) == buf@.len() + n
            },
            Err(e) => {
                &&& r matches Err(f) && f == e
                &&& *final(buf.cursor()) == buf@.len()
            },
        },
        final(buf.span())@ == buf@ + buf.spare(),
{
    let mut buf = buf;
    match outcome {
        Ok(n) => {
            buf.advance(n);
            Ok(buf.initialized())
        },
        Err(e) => {
            proof {
                buf.lemma_dropped();
            }
            Err(e)
        },
    }
}

/// One read of a source, handed spare room that holds `spare` behind
/// `committed`, left the source as `after` and the region holding `span`
/// with `cursor` bytes committed, and gave `r`: what the source reported is
/// committed behind what was, and its failure is handed on as it is.
pub open spec fn reads_into<T: ReadBufferMarker>(
    before: &T,
    after: &T,
    committed: Seq<u8>,
    spare: Seq<u8>,
    span: Seq<u8>,
    cursor: nat,
    r: Result<&[u8], Error>,
) -> bool {
    exists|filled: Seq<u8>, outcome: Result<usize, Error>|
        {
            &&& #[trigger] before.reads(spare, after, filled, outcome)
            &&& filled.len() == spare.len()
            &&& span == committed + filled
            &&& match outcome {
                Ok(n) => {
                    &&& n <= filled.len()
                    &&& r matches Ok(s) && s@ == committed + filled.take(n as int)
                    &&& cursor == committed.len() + n
                },
                Err(e) => {
                    &&& r matches Err(f) && f == e
                    &&& cursor == committed.len()
                },
            }
        }
}

/// Reads once from `reader` into the spare room of `buf`, and returns what
/// is then committed.
pub fn read_buffer_ref<'d, 's, T: ReadBufferMarker>(reader: &mut T, buf: BufferRef<'d, 's>) -> (r:
    Result<&'d [u8], Error>)
    requires
        buf.wf(),
    ensures
        reads_into(
            old(reader),
            final(reader),
            buf@,
            buf.spare(),
            final(buf.span())@,
            *final(buf.cursor()) as nat,
            r,
        ),
        final(buf.span())@.len() == buf.capacity(),
        buf@.is_prefix_of(final(buf.span())@),
        match r {
            Ok(s) => {
                &&& buf@.len() <= s@.len() <= buf.capacity()
                &&& s@ == final(buf.span())@.take(s@.len() as int)
                &&& *final(buf.cursor()) == s@.len()
            },
            Err(_) => *final(buf.cursor()) == buf@.len(),
        },
{
    let mut buf = buf;
    let outcome = reader.read(buf.uninitialized_mut());
    read_into(buf, outcome)
}

/// A byte source that can read into a `BufferRef`.
pub trait ReadBufferRef {
    /// What one read into a reference may do: handed a reference that has
    /// `committed` before spare room that holds `spare`, this source may
    /// leave the region holding `span` with `cursor` bytes committed, be
    /// `after` from then on, and return `r`. Of a source that says nothing
    /// of its reads, any read may do anything.
    open spec fn fills(
        &self,
        after: &Self,
        committed: Seq<u8>,
        spare: Seq<u8>,
        span: Seq<u8>,
        cursor: nat,
        r: Result<&[u8], Error>,
    ) -> bool {
        true
    }

    /// Reads once into the spare room of `buf`, and returns what is then
    /// committed.
    fn read_buffer_ref<'d, 's>(&mut self, buf: BufferRef<'d, 's>) -> (r: Result<&'d [u8], Error>)
        requires
            buf.wf(),
        ensures
            old(self).fills(
                final(self),
                buf@,
                buf.spare(),
                final(buf.span())@,
                *final(buf.cursor()) as nat,
                r,
            ),
            final(buf.span())@.len() == buf.capacity(),
            buf@.is_prefix_of(final(buf.span())@),
            match r {
                Ok(s) => {
                    &&& buf@.len() <= s@.len() <= buf.capacity()
                    &&& s@ == final(buf.span())@.take(s@.len() as int)
                    &&& *final(buf.cursor()) == s@.len()
                },
                Err(_) => *final(buf.cursor()) == buf@.len(),
            },
    ;
}

/// The bytes that a read has committed: none, where it failed.
pub open spec fn bytes_read(r: Result<&[u8], Error>) -> Seq<u8> {
    match r {
        Ok(s) => s@,
        Err(_) => Seq::<u8>::empty(),
    }
}

/// A byte source that can read into the spare room of a container.
pub trait ReadBuffer: ReadBufferRef {
    /// Reads once into the spare room of `buf`, commits what was read, and
    /// returns it.
    fn read_buffer<'d, B: Buffer<'d>>(&mut self, buf: B) -> (r: Result<&'d [u8], Error>)
        requires
            buf.ready(),
        ensures
            exists|room: Seq<u8>, beyond: Seq<u8>, span: Seq<u8>, inner: Result<&[u8], Error>|
                {
                    &&& #[trigger] buf.lends(room, beyond)
                    &&& span.len() == room.len()
                    &&& #[trigger] old(self).fills(
                        final(self),
                        Seq::<u8>::empty(),
                        room,
                        span,
                        bytes_read(inner).len(),
                        inner,
                    )
                    &&& match inner {
                        Ok(s) => r matches Ok(t) && t@ == s@,
                        Err(e) => r matches Err(f) && f == e,
                    }
                    &&& bytes_read(r) == span.take(bytes_read(r).len() as int)
                    &&& B::Intermediate::settles(
                        B::Intermediate::contents(buf.owner()),
                        bytes_read(r),
                        span.skip(bytes_read(r).len() as int) + beyond,
                        final(buf.owner()),
                    )
                },
    {
        let mut intermediate = buf.to_to_buffer_ref();
        let ghost room = intermediate.room();
        let ghost beyond = intermediate.beyond();
        let lent = intermediate.to_buffer_ref();
        let ghost view = lent;
        let inner = self.read_buffer_ref(lent);
        let ghost read = inner;
        let failure = match inner {
            Ok(_) => None,
            Err(e) => Some(e),
        };
        let r = finish_read(intermediate, failure);
        proof {
            assert(buf.lends(room, beyond));
            assert(old(self).fills(
                final(self),
                Seq::<u8>::empty(),
                room,
                final(view.span())@,
                bytes_read(read).len(),
                read,
            ));
        }
        r
    }
}

/// Ends a submission into which a source has read once: commits to the
/// container what is pending, and returns it, or else the failure of the
/// source.
pub fn finish_read<'d, T: ToBufferRef<'d>>(intermediate: T, failure: Option<Error>) -> (r: Result<
    &'d [u8],
    Error,
>)
    requires
        intermediate.wf(),
    ensures
        T::settles(
            intermediate.origin(),
            intermediate.pending(),
            intermediate.room() + intermediate.beyond(),
            final(intermediate.owner()),
        ),
        match failure {
            None => r matches Ok(s) && s@ == intermediate.pending(),
            Some(e) => r matches Err(f) && f == e,
        },
{
    let read = intermediate.finish();
    match failure {
        None => Ok(read),
        Some(e) => Err(e),
    }
}

impl<T: ReadBufferRef> ReadBuffer for T {

}

impl<T: ReadBufferMarker> ReadBufferRef for T {
    /// A read into a reference is a read of its spare room.
    open spec fn fills(
        &self,
        after: &T,
        committed: Seq<u8>,
        spare: Seq<u8>,
        span: Seq<u8>,
        cursor: nat,
        r: Result<&[u8], Error>,
    ) -> bool {
        reads_into(self, after, committed, spare, span, cursor, r)
    }

    /// Reads as `read_buffer_ref` does.
    fn read_buffer_ref<'d, 's>(&mut self, buf: BufferRef<'d, 's>) -> (r: Result<&'d [u8], Error>) {
        read_buffer_ref(self, buf)
    }
}

impl<'a> ReadBufferMarker for &'a [u8] {
    /// A read of a slice never fails: as many bytes as fit are copied from
    /// its start, and the slice is left at the rest.
    open spec fn reads(
        &self,
        span: Seq<u8>,
        after: &&'a [u8],
        filled: Seq<u8>,
        r: Result<usize, Error>,
    ) -> bool {
        let n = fitting(self@.len(), span.len());
        &&& r matches Ok(m) && m == n
        &&& filled == self@.take(n) + span.skip(n)
        &&& after@ == self@.skip(n)
    }

    /// Copies as many bytes as fit from the start of the slice, and leaves
    /// the slice at the rest.
    fn read(&mut self, buf: &mut [u8]) -> (r: Result<usize, Error>) {
        let n: usize = if self.len() <= buf.len() {
            self.len()
        } else {
            buf.len()
        };
        let mut i: usize = 0;
        while i < n
            invariant
                i <= n,
                n <= self@.len(),
                n <= buf@.len(),
                self@ == old(self)@,
                buf@.len() == old(buf)@.len(),
                forall|j: int| 0 <= j < i ==> buf@[j] == self@[j],
                forall|j: int| i <= j < buf@.len() ==> buf@[j] == old(buf)@[j],
            decreases n - i,
        {
            buf[i] = self[i];
            i = i + 1;
        }
        let (_head, rest) = self.split_at(n);
        *self = rest;
        assert(buf@ =~= old(self)@.take(n as int) + old(buf)@.skip(n as int));
        Ok(n)
    }
}

impl<'a, R: ReadBufferMarker> ReadBufferMarker for &'a mut R {
    /// A read of a borrowed source is a read of the source.
    open spec fn reads(
        &self,
        span: Seq<u8>,
        after: &&'a mut R,
        filled: Seq<u8>,
        r: Result<usize, Error>,
    ) -> bool {
        (**self).reads(span, &**after, filled, r)
    }

    fn read(&mut self, buf: &mut [u8]) -> (r: Result<usize, Error>) {
        (**self).read(buf)
    }
}

impl<R: ReadBufferMarker> ReadBufferMarker for Box<R> {
    /// A read of a boxed source is a read of the source.
    open spec fn reads(
        &self,
        span: Seq<u8>,
        after: &Box<R>,
        filled: Seq<u8>,
        r: Result<usize, Error>,
    ) -> bool {
        (**self).reads(span, &**after, filled, r)
    }

    fn read(&mut self, buf: &mut [u8]) -> (r: Result<usize, Error>) {
        (**self).read(buf)
    }
}

} // verus!
