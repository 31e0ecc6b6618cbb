//! The buffered reader.

use vstd::prelude::*;
use vstd::slice::slice_subrange;

use crate::bytes;
use crate::error::{Error, Failure};
use crate::reader_state;
use crate::reader_state::{ExactStep, ReadStep, ReaderState, SeekStep};
use crate::seek::SeekFrom;

verus! {

/// Adds buffering to any reader, with a buffer of `N` bytes that lies in the
/// value itself.
///
/// It never calls the wrapped reader. An operation that needs it says which
/// call to make; the caller makes the call, on [`get_mut`] or on what
/// [`fill_parts`] hands out, and passes on what came back.
///
/// [`get_mut`]: StackBufReader::get_mut
/// [`fill_parts`]: StackBufReader::fill_parts
pub struct StackBufReader<R: ?Sized, const N: usize> {
    buf: [u8; N],
    pos: usize,
    filled: usize,
    reader: R,
}

impl<R: ?Sized, const N: usize> View for StackBufReader<R, N> {
    type V = ReaderState;

    closed spec fn view(&self) -> ReaderState {
        ReaderState { storage: self.buf@, pos: self.pos as int, filled: self.filled as int }
    }
}

impl<R: ?Sized, const N: usize> StackBufReader<R, N> {
    /// The wrapped reader.
    pub closed spec fn inner(&self) -> &R {
        &self.reader
    }

    /// The state is valid, and the buffer is no larger than an array can be.
    pub open spec fn wf(&self) -> bool {
        &&& self@.valid()
        &&& self@.storage.len() == N
        &&& N <= isize::MAX
    }

    /// Wraps a reader.
    pub fn new(reader: R) -> (made: Self) where R: Sized
        requires
            N <= isize::MAX,
        ensures
            made.wf(),
            made@ == (ReaderState { storage: Seq::new(N as nat, |i: int| 0u8), pos: 0, filled: 0 }),
            made@.pending().len() == 0,
            *made.inner() == reader,
    {
        let made = StackBufReader { buf: [0u8; N], pos: 0, filled: 0, reader };
        assert(made@.storage == Seq::new(N as nat, |i: int| 0u8));
        made
    }

    /// The wrapped reader.
    ///
    /// It is inadvisable to directly read from it.
    pub fn get_ref(&self) -> (reader: &R)
        ensures
            reader == self.inner(),
    {
        &self.reader
    }

    /// The wrapped reader, for a call on it.
    ///
    /// It is inadvisable to directly read from it, but where an operation asks
    /// for that.
    pub fn get_mut(&mut self) -> (reader: &mut R)
        ensures
            &*reader == old(self).inner(),
            final(self).inner() == &*final(reader),
            final(self)@ == old(self)@,
    {
        &mut self.reader
    }

    /// The data that is buffered and not yet read. This does not attempt to
    /// fill an empty buffer.
    pub fn buffer(&self) -> (pending: &[u8])
        requires
            self.wf(),
        ensures
            pending@ == self@.pending(),
            pending@.len() <= N,
    {
        slice_subrange(self.buf.as_slice(), self.pos, self.filled)
    }

    /// How many bytes the buffer can hold at once.
    pub fn capacity(&self) -> (capacity: usize)
        ensures
            capacity == N,
    {
        N
    }

    /// Unwraps the reader. Data that is left in the buffer is lost.
    pub fn into_inner(self) -> (reader: R) where R: Sized
        ensures
            reader == *self.inner(),
    {
        self.reader
    }

    /// Invalidates all data in the buffer.
    pub fn discard_buffer(&mut self)
        requires
            old(self).wf(),
        ensures
            final(self).wf(),
            final(self)@ == old(self)@.discarded(),
            final(self).inner() == old(self).inner(),
    {
        self.pos = 0;
        self.filled = 0;
    }

    /// Marks `amt` bytes of the buffer as read, or all of them if there are
    /// fewer.
    pub fn consume(&mut self, amt: usize)
        requires
            old(self).wf(),
        ensures
            final(self).wf(),
            final(self)@ == old(self)@.consumed(amt as int),
            final(self).inner() == old(self).inner(),
    {
        self.pos = self.pos + bytes::least_of(amt, self.filled - self.pos);
    }

    /// Marks the last `amt` bytes that were read from the buffer as not read,
    /// or all that it still holds if there are fewer.
    pub fn unconsume(&mut self, amt: usize)
        requires
            old(self).wf(),
        ensures
            final(self).wf(),
            final(self)@ == old(self)@.unconsumed(amt as int),
            final(self).inner() == old(self).inner(),
    {
        self.pos = self.pos.saturating_sub(amt);
    }

    /// Fills `dst` from the buffer if the buffer has as many bytes, and does
    /// nothing if it has not.
    pub fn consume_with(&mut self, dst: &mut [u8]) -> (claimed: bool)
        requires
            old(self).wf(),
        ensures
            final(self).wf(),
            final(self).inner() == old(self).inner(),
            claimed == (old(dst)@.len() <= old(self)@.pending().len()),
            claimed ==> final(dst)@ == old(self)@.pending().take(old(dst)@.len() as int),
            claimed ==> final(self)@ == old(self)@.consumed(old(dst)@.len() as int),
            !claimed ==> final(dst)@ == old(dst)@,
            !claimed ==> final(self)@ == old(self)@,
    {
        let amt: usize = dst.len();
        if amt <= self.filled - self.pos {
            let claimed: &[u8] = slice_subrange(self.buf.as_slice(), self.pos, self.pos + amt);
            proof {
                assert(claimed@ == self@.pending().take(amt as int));
            }
            bytes::copy_at(dst, 0, claimed);
            self.pos = self.pos + amt;
            true
        } else {
            false
        }
    }

    /// The data that is buffered and not yet read, or nothing where there is
    /// none and the buffer must be filled first, with [`fill_parts`] and
    /// [`fill_done`].
    ///
    /// [`fill_parts`]: StackBufReader::fill_parts
    /// [`fill_done`]: StackBufReader::fill_done
    pub fn fill_buf(&self) -> (pending: Option<&[u8]>)
        requires
            self.wf(),
        ensures
            pending is Some <==> self@.pending().len() > 0,
            pending matches Some(b) ==> b@ == self@.pending(),
    {
        if self.pos >= self.filled {
            None
        } else {
            Some(self.buffer())
        }
    }

    /// The wrapped reader and the whole of the empty buffer, for a call that
    /// reads from the one into the other.
    pub fn fill_parts(&mut self) -> (parts: (&mut R, &mut [u8]))
        requires
            old(self).wf(),
            old(self)@.pending().len() == 0,
        ensures
            final(self).wf(),
            &*parts.0 == old(self).inner(),
            parts.1@ == old(self)@.storage,
            parts.1@.len() == N,
            final(self).inner() == &*final(parts.0),
            final(self)@ == (ReaderState { storage: final(parts.1)@, ..old(self)@ }),
    {
        (&mut self.reader, &mut self.buf)
    }

    /// Takes the answer to a call that read into the buffer, and returns the
    /// data that it left there.
    pub fn fill_done<E>(&mut self, reply: Result<usize, E>) -> (pending: Result<&[u8], E>)
        requires
            old(self).wf(),
            old(self)@.pending().len() == 0,
            reply matches Ok(n) ==> n <= N,
        ensures
            final(self).wf(),
            final(self)@ == old(self)@.answered(reply),
            final(self).inner() == old(self).inner(),
            match reply {
                Ok(n) => pending is Ok && pending->Ok_0@ == old(self)@.storage.take(n as int),
                Err(e) => pending == Err::<&[u8], E>(e),
            },
    {
        self.pos = 0;
        self.filled = 0;
        match reply {
            Ok(n) => {
                self.filled = n;
                Ok(self.buffer())
            },
            Err(e) => Err(e),
        }
    }

    /// Reads what is buffered into `dst`, or says what it takes where nothing
    /// is: to fill the buffer and end the read with [`read_filled`], or, for a
    /// read as large as the buffer, to bypass it.
    ///
    /// [`read_filled`]: StackBufReader::read_filled
    pub fn read(&mut self, dst: &mut [u8]) -> (step: ReadStep)
        requires
            old(self).wf(),
        ensures
            final(self).wf(),
            final(self).inner() == old(self).inner(),
            step == old(self)@.read_step(old(dst)@.len() as int),
            final(self)@ == old(self)@.read_state(old(dst)@.len() as int),
            final(dst)@ == bytes::overwrite(
                old(dst)@,
                0,
                old(self)@.pending().take(old(self)@.at_hand(old(dst)@.len() as int)),
            ),
    {
        if self.pos == self.filled {
            assert(bytes::overwrite(dst@, 0, self@.pending().take(0)) == dst@);
            if dst.len() >= self.capacity() {
                self.discard_buffer();
                return ReadStep::Direct;
            }
            return ReadStep::Fill;
        }
        ReadStep::Done(self.read_buffered(dst))
    }

    /// Ends a read for which the buffer was filled: `reply` is the answer to
    /// the call that read into the buffer.
    pub fn read_filled<E>(&mut self, dst: &mut [u8], reply: Result<usize, E>) -> (read: Result<
        usize,
        E,
    >)
        requires
            old(self).wf(),
            old(self)@.pending().len() == 0,
            reply matches Ok(n) ==> n <= N,
        ensures
            final(self).wf(),
            final(self).inner() == old(self).inner(),
            match reply {
                Ok(n) => {
                    let full = old(self)@.loaded(n as int);
                    let k = full.at_hand(old(dst)@.len() as int);
                    &&& read == Ok::<usize, E>(k as usize)
                    &&& final(self)@ == full.consumed(k)
                    &&& final(dst)@ == bytes::overwrite(old(dst)@, 0, full.pending().take(k))
                },
                Err(e) => {
                    &&& read == Err::<usize, E>(e)
                    &&& final(self)@ == old(self)@.discarded()
                    &&& final(dst)@ == old(dst)@
                },
            },
    {
        match self.fill_done(reply) {
            Ok(_) => {},
            Err(e) => {
                return Err(e);
            },
        }
        Ok(self.read_buffered(dst))
    }

    /// Reads what is buffered into `dst`.
    fn read_buffered(&mut self, dst: &mut [u8]) -> (read: usize)
        requires
            old(self).wf(),
        ensures
            final(self).wf(),
            final(self).inner() == old(self).inner(),
            read == old(self)@.at_hand(old(dst)@.len() as int),
            final(self)@ == old(self)@.consumed(read as int),
            final(dst)@ == bytes::overwrite(
                old(dst)@,
                0,
                old(self)@.pending().take(read as int),
            ),
    {
        let n: usize = bytes::least_of(self.filled - self.pos, dst.len());
        let part: &[u8] = slice_subrange(self.buf.as_slice(), self.pos, self.pos + n);
        proof {
            assert(part@ == self@.pending().take(n as int));
        }
        bytes::copy_at(dst, 0, part);
        self.consume(n);
        n
    }

    /// Reads what is buffered into a row of vectors, one after the other, or
    /// says what it takes where nothing is, as [`read`] does.
    ///
    /// [`read`]: StackBufReader::read
    pub fn read_vectored(&mut self, bufs: &mut Vec<Vec<u8>>) -> (step: ReadStep)
        requires
            old(self).wf(),
            bytes::rows(old(bufs)@).flatten().len() <= usize::MAX,
        ensures
            final(self).wf(),
            final(self).inner() == old(self).inner(),
            ({
                let out = bytes::rows(old(bufs)@).flatten();
                let s = old(self)@;
                &&& step == s.read_step(out.len() as int)
                &&& final(self)@ == s.read_state(out.len() as int)
                &&& bytes::rows(final(bufs)@).flatten() == bytes::overwrite(
                    out,
                    0,
                    s.pending().take(s.at_hand(out.len() as int)),
                )
            }),
            final(bufs)@.len() == old(bufs)@.len(),
            forall|i: int|
                0 <= i < final(bufs)@.len() ==> (#[trigger] final(bufs)@[i])@.len() == old(
                    bufs,
                )@[i]@.len(),
    {
        let total: usize = bytes::total_len(bufs);
        if self.pos == self.filled {
            proof {
                let out = bytes::rows(bufs@).flatten();
                assert(bytes::overwrite(out, 0, self@.pending().take(0)) == out);
            }
            if total >= self.capacity() {
                self.discard_buffer();
                return ReadStep::Direct;
            }
            return ReadStep::Fill;
        }
        ReadStep::Done(self.scatter_buffered(bufs, total))
    }

    /// Ends a read into a row of vectors for which the buffer was filled:
    /// `reply` is the answer to the call that read into the buffer.
    pub fn read_vectored_filled<E>(
        &mut self,
        bufs: &mut Vec<Vec<u8>>,
        reply: Result<usize, E>,
    ) -> (read: Result<usize, E>)
        requires
            old(self).wf(),
            old(self)@.pending().len() == 0,
            reply matches Ok(n) ==> n <= N,
            bytes::rows(old(bufs)@).flatten().len() <= usize::MAX,
        ensures
            final(self).wf(),
            final(self).inner() == old(self).inner(),
            ({
                let out = bytes::rows(old(bufs)@).flatten();
                match reply {
                    Ok(n) => {
                        let full = old(self)@.loaded(n as int);
                        let k = full.at_hand(out.len() as int);
                        &&& read == Ok::<usize, E>(k as usize)
                        &&& final(self)@ == full.consumed(k)
                        &&& bytes::rows(final(bufs)@).flatten() == bytes::overwrite(
                            out,
                            0,
                            full.pending().take(k),
                        )
                    },
                    Err(e) => {
                        &&& read == Err::<usize, E>(e)
                        &&& final(self)@ == old(self)@.discarded()
                        &&& bytes::rows(final(bufs)@).flatten() == out
                    },
                }
            }),
            final(bufs)@.len() == old(bufs)@.len(),
            forall|i: int|
                0 <= i < final(bufs)@.len() ==> (#[trigger] final(bufs)@[i])@.len() == old(
                    bufs,
                )@[i]@.len(),
    {
        match self.fill_done(reply) {
            Ok(_) => {},
            Err(e) => {
                return Err(e);
            },
        }
        let total: usize = bytes::total_len(bufs);
        Ok(self.scatter_buffered(bufs, total))
    }

    /// Reads what is buffered into a row of vectors that holds `total` bytes.
    fn scatter_buffered(&mut self, bufs: &mut Vec<Vec<u8>>, total: usize) -> (read: usize)
        requires
            old(self).wf(),
            total == bytes::rows(old(bufs)@).flatten().len(),
        ensures
            final(self).wf(),
            final(self).inner() == old(self).inner(),
            read == old(self)@.at_hand(total as int),
            final(self)@ == old(self)@.consumed(read as int),
            bytes::rows(final(bufs)@).flatten() == bytes::overwrite(
                bytes::rows(old(bufs)@).flatten(),
                0,
                old(self)@.pending().take(read as int),
            ),
            final(bufs)@.len() == old(bufs)@.len(),
            forall|i: int|
                0 <= i < final(bufs)@.len() ==> (#[trigger] final(bufs)@[i])@.len() == old(
                    bufs,
                )@[i]@.len(),
    {
        let n: usize = bytes::least_of(self.filled - self.pos, total);
        let part: &[u8] = slice_subrange(self.buf.as_slice(), self.pos, self.pos + n);
        proof {
            assert(part@ == self@.pending().take(n as int));
        }
        bytes::scatter(bufs, part);
        self.consume(n);
        n
    }

    /// Starts to read as many bytes as `dst` has room for.
    ///
    /// Where the step is no end, the caller makes the call that it asks for
    /// and goes on with [`read_exact_filled`] or [`read_exact_direct`].
    ///
    /// [`read_exact_filled`]: StackBufReader::read_exact_filled
    /// [`read_exact_direct`]: StackBufReader::read_exact_direct
    pub fn read_exact<E>(&mut self, dst: &mut [u8]) -> (step: ExactStep<E>)
        requires
            old(self).wf(),
        ensures
            final(self).wf(),
            final(self).inner() == old(self).inner(),
            ({
                let read = reader_state::exact_from::<E>(old(self)@, old(dst)@, 0);
                &&& step == read.step
                &&& final(self)@ == read.state
                &&& final(dst)@ == read.out
            }),
    {
        if self.consume_with(dst) {
            proof {
                let want = old(dst)@.len() as int;
                assert(bytes::overwrite(old(dst)@, 0, old(self)@.pending().take(want))
                    == old(self)@.pending().take(want));
            }
            return ExactStep::Done(Ok(()));
        }
        self.default_read_exact(dst, 0)
    }

    /// Goes on with an exact read of which `got` bytes are there, until it is
    /// over or needs the wrapped reader.
    pub fn default_read_exact<E>(&mut self, dst: &mut [u8], got: usize) -> (step: ExactStep<E>)
        requires
            old(self).wf(),
            got <= old(dst)@.len(),
        ensures
            final(self).wf(),
            final(self).inner() == old(self).inner(),
            ({
                let read = reader_state::exact_from::<E>(old(self)@, old(dst)@, got as int);
                &&& step == read.step
                &&& final(self)@ == read.state
                &&& final(dst)@ == read.out
            }),
    {
        let ghost out = dst@;
        let ghost s = self@;
        let len: usize = dst.len();
        let mut at: usize = got;
        while at < len
            invariant
                self.wf(),
                self.inner() == old(self).inner(),
                s == old(self)@,
                out == old(dst)@,
                s.valid(),
                s.storage.len() == N,
                got <= at <= len == out.len() == dst@.len(),
                at - got <= s.pending().len(),
                self@ == s.consumed(at - got),
                dst@ == bytes::overwrite(out, got as int, s.pending().take(at - got)),
            decreases len - at,
        {
            let ghost was = dst@;
            let ghost sofar = s.pending().take(at - got);
            let (_, tail) = dst.split_at_mut(at);
            let step = self.read(tail);
            assert(step !is Done ==> dst@ == was && s.pending().take(at - got) == s.pending());
            match step {
                ReadStep::Done(n) => {
                    proof {
                        let more = s.consumed(at - got).pending().take(n as int);
                        assert(sofar + more == s.pending().take(at + n - got));
                        assert(dst@ == was.take(at as int) + bytes::overwrite(
                            was.skip(at as int),
                            0,
                            more,
                        ));
                        assert(dst@ == bytes::overwrite(out, got as int, sofar + more));
                    }
                    at = at + n;
                },
                ReadStep::Fill => {
                    return ExactStep::Fill(at);
                },
                ReadStep::Direct => {
                    return ExactStep::Direct(at);
                },
            }
        }
        ExactStep::Done(Ok(()))
    }

    /// Goes on with an exact read for which the buffer was filled: `reply` is
    /// the answer to the call that read into the buffer.
    pub fn read_exact_filled<E>(
        &mut self,
        dst: &mut [u8],
        got: usize,
        reply: Result<usize, Failure<E>>,
    ) -> (step: ExactStep<E>)
        requires
            old(self).wf(),
            old(self)@.pending().len() == 0,
            got < old(dst)@.len(),
            reply matches Ok(n) ==> n <= N,
        ensures
            final(self).wf(),
            final(self).inner() == old(self).inner(),
            ({
                let read = reader_state::exact_filled(old(self)@, old(dst)@, got as int, reply);
                &&& step == read.step
                &&& final(self)@ == read.state
                &&& final(dst)@ == read.out
            }),
    {
        match self.fill_done(reply) {
            Ok(filled) => {
                if filled.len() == 0 {
                    return ExactStep::Done(Err(Error::UnexpectedEof));
                }
            },
            Err(failure) => {
                if !failure.interrupted {
                    return ExactStep::Done(Err(Error::Inner(failure.error)));
                }
            },
        }
        self.default_read_exact(dst, got)
    }

    /// Goes on with an exact read for which the wrapped reader was to read
    /// straight into `dst`, from index `got` on: `reply` is its answer.
    pub fn read_exact_direct<E>(
        &mut self,
        dst: &mut [u8],
        got: usize,
        reply: Result<usize, Failure<E>>,
    ) -> (step: ExactStep<E>)
        requires
            old(self).wf(),
            old(self)@.pending().len() == 0,
            got < old(dst)@.len(),
            reply matches Ok(n) ==> n <= old(dst)@.len() - got,
        ensures
            final(self).wf(),
            final(self).inner() == old(self).inner(),
            ({
                let read = reader_state::exact_direct(old(self)@, old(dst)@, got as int, reply);
                &&& step == read.step
                &&& final(self)@ == read.state
                &&& final(dst)@ == read.out
            }),
    {
        assert(dst.len() == dst@.len());
        match reply {
            Ok(n) => {
                if n == 0 {
                    return ExactStep::Done(Err(Error::UnexpectedEof));
                }
                self.default_read_exact(dst, got + n)
            },
            Err(failure) => {
                if !failure.interrupted {
                    return ExactStep::Done(Err(Error::Inner(failure.error)));
                }
                self.default_read_exact(dst, got)
            },
        }
    }

    /// Starts to read all that is left: moves what is buffered to the end of
    /// `out` and returns its length. The wrapped reader must then append all
    /// that it has left, and [`read_to_end_done`] ends the read.
    ///
    /// It first asks for room for exactly the buffered bytes, if there are any.
    /// It fails if and only if the allocator has none, and then changes nothing.
    ///
    /// [`read_to_end_done`]: StackBufReader::read_to_end_done
    pub fn read_to_end<E>(&mut self, out: &mut Vec<u8>) -> (drained: Result<usize, Error<E>>)
        requires
            old(self).wf(),
        ensures
            final(self).wf(),
            final(self).inner() == old(self).inner(),
            old(self)@.pending().len() == 0 ==> drained is Ok,
            old(self)@.pending().len() > 0 ==> bytes::reserve_answers(
                old(out)@,
                old(self)@.pending().len() as usize,
                drained is Ok,
            ),
            match drained {
                Ok(n) => {
                    &&& n == old(self)@.pending().len()
                    &&& final(out)@ == old(out)@ + old(self)@.pending()
                    &&& final(self)@ == old(self)@.discarded()
                },
                Err(e) => {
                    &&& e == Error::<E>::OutOfMemory
                    &&& final(out)@ == old(out)@
                    &&& final(self)@ == old(self)@
                },
            },
    {
        let n: usize = self.buffer().len();
        let reserved: bool = n == 0 || bytes::reserve(out, n);
        self.drain_reserved(out, reserved)
    }

    /// Moves what is buffered to the end of `out`, if room for it was
    /// reserved there.
    pub fn drain_reserved<E>(&mut self, out: &mut Vec<u8>, reserved: bool) -> (drained: Result<
        usize,
        Error<E>,
    >)
        requires
            old(self).wf(),
        ensures
            final(self).wf(),
            final(self).inner() == old(self).inner(),
            reserved ==> {
                &&& drained == Ok::<usize, Error<E>>(old(self)@.pending().len() as usize)
                &&& final(out)@ == old(out)@ + old(self)@.pending()
                &&& final(self)@ == old(self)@.discarded()
            },
            !reserved ==> {
                &&& drained == Err::<usize, Error<E>>(Error::OutOfMemory)
                &&& final(out)@ == old(out)@
                &&& final(self)@ == old(self)@
            },
    {
        if !reserved {
            return Err(Error::OutOfMemory);
        }
        let pending: &[u8] = self.buffer();
        let n: usize = pending.len();
        out.extend_from_slice(pending);
        assert(out@ == old(out)@ + self@.pending());
        self.discard_buffer();
        Ok(n)
    }

    /// Ends a read of all that is left: `drained` bytes came from the buffer,
    /// and `reply` is the wrapped reader's answer for the rest.
    pub fn read_to_end_done<E>(drained: usize, reply: Result<usize, E>) -> (read: Result<
        usize,
        Error<E>,
    >)
        requires
            reply matches Ok(n) ==> drained + n <= usize::MAX,
        ensures
            read == match reply {
                Ok(n) => Ok::<usize, Error<E>>((drained + n) as usize),
                Err(e) => Err(Error::Inner(e)),
            },
    {
        match reply {
            Ok(n) => Ok(drained + n),
            Err(e) => Err(Error::Inner(e)),
        }
    }

    /// Says how the wrapped reader must seek so that it gets to `target`.
    ///
    /// The position that `SeekFrom::Current` starts from is the one that the
    /// wrapped reader would have if there were no buffer. The seek ends with
    /// [`seek_done`], after [`seek_rewound`] if it takes two calls.
    ///
    /// [`seek_done`]: StackBufReader::seek_done
    /// [`seek_rewound`]: StackBufReader::seek_rewound
    pub fn seek(&self, target: SeekFrom) -> (step: SeekStep)
        requires
            self.wf(),
        ensures
            step == self@.seek_step(target),
    {
        match target {
            SeekFrom::Current(n) => {
                let ahead: i64 = (self.filled - self.pos) as i64;
                match n.checked_sub(ahead) {
                    Some(offset) => SeekStep::Seek(SeekFrom::Current(offset)),
                    None => SeekStep::Rewind { back: -ahead, on: n },
                }
            },
            _ => SeekStep::Seek(target),
        }
    }

    /// Takes the answer to the first of the two calls of a seek, and says what
    /// the second one is.
    pub fn seek_rewound<E>(&mut self, on: i64, reply: Result<u64, E>) -> (step: Result<SeekStep, E>)
        requires
            old(self).wf(),
        ensures
            final(self).wf(),
            final(self).inner() == old(self).inner(),
            match reply {
                Ok(_) => {
                    &&& step == Ok::<SeekStep, E>(SeekStep::Seek(SeekFrom::Current(on)))
                    &&& final(self)@ == old(self)@.discarded()
                },
                Err(e) => {
                    &&& step == Err::<SeekStep, E>(e)
                    &&& final(self)@ == old(self)@
                },
            },
    {
        match reply {
            Ok(_) => {
                self.discard_buffer();
                Ok(SeekStep::Seek(SeekFrom::Current(on)))
            },
            Err(e) => Err(e),
        }
    }

    /// Takes the answer to the last call of a seek. A seek that went well
    /// discards the buffer, even where the target lies within it.
    pub fn seek_done<E>(&mut self, reply: Result<u64, E>) -> (position: Result<u64, E>)
        requires
            old(self).wf(),
        ensures
            final(self).wf(),
            final(self).inner() == old(self).inner(),
            position == reply,
            final(self)@ == if reply is Ok {
                old(self)@.discarded()
            } else {
                old(self)@
            },
    {
        match reply {
            Ok(position) => {
                self.discard_buffer();
                Ok(position)
            },
            Err(e) => Err(e),
        }
    }

    /// The current position, where `reply` is what the wrapped reader says of
    /// its own. The buffer stays as it is.
    pub fn stream_position<E>(&self, reply: Result<u64, E>) -> (position: Result<u64, E>)
        requires
            self.wf(),
            reply matches Ok(inner) ==> self@.pending().len() <= inner,
        ensures
            position == match reply {
                Ok(inner) => Ok::<u64, E>((inner - self@.pending().len()) as u64),
                Err(e) => Err(e),
            },
    {
        match reply {
            Ok(inner) => Ok(inner - (self.filled - self.pos) as u64),
            Err(e) => Err(e),
        }
    }

    /// Moves the position by `offset` bytes. Within the buffer that is all
    /// there is to do; elsewhere it says how the wrapped reader must seek, as
    /// [`seek`] does.
    ///
    /// [`seek`]: StackBufReader::seek
    pub fn seek_relative(&mut self, offset: i64) -> (step: Option<SeekStep>)
        requires
            old(self).wf(),
        ensures
            final(self).wf(),
            final(self).inner() == old(self).inner(),
            old(self)@.within(offset as int) ==> {
                &&& step is None
                &&& final(self)@ == (ReaderState { pos: old(self)@.pos + offset, ..old(self)@ })
            },
            !old(self)@.within(offset as int) ==> {
                &&& step == Some(old(self)@.seek_step(SeekFrom::Current(offset)))
                &&& final(self)@ == old(self)@
            },
    {
        let pos: u64 = self.pos as u64;
        if offset < 0 {
            if offset > i64::MIN {
                let back: u64 = (-offset) as u64;
                if let Some(_) = pos.checked_sub(back) {
                    self.unconsume(back as usize);
                    return None;
                }
            }
        } else if let Some(new_pos) = pos.checked_add(offset as u64) {
            if new_pos <= self.filled as u64 {
                self.consume(offset as usize);
                return None;
            }
        }
        Some(self.seek(SeekFrom::Current(offset)))
    }
}

} // verus!
