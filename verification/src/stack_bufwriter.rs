//! The buffered writer.

use vstd::prelude::*;
use vstd::slice::slice_subrange;

use crate::bytes;
use crate::error::{Error, Failure};
use crate::seek::SeekFrom;
use crate::writer_state;
use crate::writer_state::{FlushStep, FollowUp, FollowStep, VectoredStep, WriteStep, WriterState};

verus! {

/// Wraps a writer and buffers its output, in a buffer of `N` bytes that lies in
/// the value itself.
///
/// It never calls the wrapped writer. An operation that needs it says which
/// call to make; the caller makes the call, on [`get_mut`] or on what
/// [`parts`] hands out, and passes on what came back.
///
/// [`get_mut`]: StackBufWriter::get_mut
/// [`parts`]: StackBufWriter::parts
pub struct StackBufWriter<W: ?Sized, const N: usize> {
    buf: [u8; N],
    pos: usize,
    panicked: bool,
    writer: W,
}

impl<W: ?Sized, const N: usize> View for StackBufWriter<W, N> {
    type V = WriterState;

    closed spec fn view(&self) -> WriterState {
        WriterState {
            buffer: self.buf@.take(self.pos as int),
            panicked: self.panicked,
            capacity: N as int,
        }
    }
}

impl<W: ?Sized, const N: usize> StackBufWriter<W, N> {
    /// The wrapped writer.
    pub closed spec fn inner(&self) -> &W {
        &self.writer
    }

    /// The end of the buffered data lies in the buffer.
    pub closed spec fn in_bounds(&self) -> bool {
        self.pos <= N
    }

    /// No more is buffered than there is room for.
    pub open spec fn wf(&self) -> bool {
        &&& self.in_bounds()
        &&& self@.valid()
        &&& self@.capacity == N
    }

    /// Wraps a writer.
    pub fn new(writer: W) -> (made: Self) where W: Sized
        ensures
            made.wf(),
            made@ == (WriterState { buffer: Seq::empty(), panicked: false, capacity: N as int }),
            *made.inner() == writer,
    {
        let made = StackBufWriter { buf: [0u8; N], pos: 0, panicked: false, writer };
        assert(made@.buffer == Seq::<u8>::empty());
        made
    }

    /// The wrapped writer.
    pub fn get_ref(&self) -> (writer: &W)
        ensures
            writer == self.inner(),
    {
        &self.writer
    }

    /// The wrapped writer, for a call on it.
    ///
    /// It is inadvisable to directly write to it, but where an operation asks
    /// for that.
    pub fn get_mut(&mut self) -> (writer: &mut W)
        ensures
            &*writer == old(self).inner(),
            final(self).inner() == &*final(writer),
            final(self)@ == old(self)@,
            final(self).wf() == old(self).wf(),
    {
        &mut self.writer
    }

    /// The data that is buffered.
    pub fn buffer(&self) -> (buffered: &[u8])
        requires
            self.wf(),
        ensures
            buffered@ == self@.buffer,
            buffered@.len() <= N,
    {
        slice_subrange(self.buf.as_slice(), 0, self.pos)
    }

    /// How many bytes the buffer can hold without flushing.
    pub fn capacity(&self) -> (capacity: usize)
        ensures
            capacity == N,
    {
        N
    }

    /// The data that is buffered and the wrapped writer, for a call that writes
    /// the one to the other.
    pub fn parts(&mut self) -> (parts: (&[u8], &mut W))
        requires
            old(self).wf(),
        ensures
            parts.0@ == old(self)@.buffer,
            &*parts.1 == old(self).inner(),
            final(self).inner() == &*final(parts.1),
            final(self)@ == old(self)@,
            final(self).wf(),
    {
        (slice_subrange(self.buf.as_slice(), 0, self.pos), &mut self.writer)
    }

    /// How many more bytes the buffer can hold without flushing.
    pub fn spare_capacity(&self) -> (spare: usize)
        requires
            self.wf(),
        ensures
            spare == self@.spare(),
    {
        self.capacity() - self.pos
    }

    /// Starts to write out the buffer, or goes on with it.
    ///
    /// Where the step asks for a write, the caller makes it with [`parts`] and
    /// goes on with [`flush_buf_reply`].
    ///
    /// [`parts`]: StackBufWriter::parts
    /// [`flush_buf_reply`]: StackBufWriter::flush_buf_reply
    pub fn flush_buf<E>(&mut self) -> (step: FlushStep<E>)
        requires
            old(self).wf(),
        ensures
            final(self).wf(),
            final(self).inner() == old(self).inner(),
            (final(self)@, step) == writer_state::flush_from::<E>(old(self)@),
    {
        if self.pos == 0 {
            FlushStep::Done(Ok(()))
        } else {
            self.panicked = true;
            FlushStep::Write
        }
    }

    /// Goes on to write out the buffer: `reply` is the answer to the call that
    /// wrote what is buffered.
    ///
    /// All that is buffered was reported as written before. So a write that
    /// takes none of it is an error, and what a failed write leaves over stays
    /// buffered.
    pub fn flush_buf_reply<E>(&mut self, reply: Result<usize, Failure<E>>) -> (step: FlushStep<E>)
        requires
            old(self).wf(),
            old(self)@.buffer.len() > 0,
        ensures
            final(self).wf(),
            final(self).inner() == old(self).inner(),
            (final(self)@, step) == writer_state::flush_after(old(self)@, reply),
    {
        self.panicked = false;
        match reply {
            Ok(n) => {
                if n == 0 {
                    return FlushStep::Done(Err(Error::WriteZero));
                }
                self.drain_front(n);
            },
            Err(failure) => {
                if !failure.interrupted {
                    return FlushStep::Done(Err(Error::Inner(failure.error)));
                }
            },
        }
        self.flush_buf()
    }

    /// Removes the first `n` bytes of the buffer, or all if there are fewer.
    fn drain_front(&mut self, n: usize)
        requires
            old(self).wf(),
        ensures
            final(self).wf(),
            final(self).inner() == old(self).inner(),
            final(self)@ == old(self)@.without(n as int),
    {
        let gone: usize = bytes::least_of(n, self.pos);
        let left: usize = self.pos - gone;
        let ghost before = self.buf@;
        let mut i: usize = 0;
        while i < left
            invariant
                i <= left,
                left + gone == self.pos <= N,
                self.buf@.len() == before.len() == N,
                self.panicked == old(self).panicked,
                self.inner() == old(self).inner(),
                forall|j: int| 0 <= j < i ==> self.buf@[j] == before[j + gone],
                forall|j: int| i <= j < N ==> self.buf@[j] == before[j],
            decreases left - i,
        {
            self.buf[i] = self.buf[i + gone];
            i = i + 1;
        }
        self.pos = left;
        assert(self@.buffer == old(self)@.buffer.skip(gone as int));
    }

    /// Puts `data` into the buffer.
    pub fn write_to_buffer_unchecked(&mut self, data: &[u8])
        requires
            old(self).wf(),
            data@.len() <= old(self)@.spare(),
        ensures
            final(self).wf(),
            final(self).inner() == old(self).inner(),
            final(self)@ == old(self)@.with(data@),
    {
        let ghost before = self.buf@;
        bytes::copy_at(&mut self.buf, self.pos, data);
        self.pos = self.pos + data.len();
        assert(self@.buffer == before.take(old(self).pos as int) + data@);
    }

    /// Starts to write `data`.
    ///
    /// Where the step is no end, the caller makes the call that it asks for
    /// and goes on with [`write_reply`] or [`write_direct_done`].
    ///
    /// [`write_reply`]: StackBufWriter::write_reply
    /// [`write_direct_done`]: StackBufWriter::write_direct_done
    pub fn write<E>(&mut self, data: &[u8]) -> (step: WriteStep<usize, E>)
        requires
            old(self).wf(),
        ensures
            final(self).wf(),
            final(self).inner() == old(self).inner(),
            (final(self)@, step) == writer_state::write_from::<usize, E>(
                old(self)@,
                data@,
                data@.len() as usize,
            ),
    {
        if data.len() < self.spare_capacity() {
            self.write_to_buffer_unchecked(data);
            WriteStep::Done(Ok(data.len()))
        } else {
            self.write_cold(data)
        }
    }

    /// Starts to write data that does not leave room in the buffer.
    fn write_cold<E>(&mut self, data: &[u8]) -> (step: WriteStep<usize, E>)
        requires
            old(self).wf(),
        ensures
            final(self).wf(),
            final(self).inner() == old(self).inner(),
            (final(self)@, step) == writer_state::write_from::<usize, E>(
                old(self)@,
                data@,
                data@.len() as usize,
            ),
    {
        if data.len() > self.spare_capacity() {
            match self.flush_buf() {
                FlushStep::Write => {
                    return WriteStep::Flush;
                },
                FlushStep::Done(Err(e)) => {
                    return WriteStep::Done(Err(e));
                },
                FlushStep::Done(Ok(_)) => {},
            }
        }
        self.write_settled(data, data.len())
    }

    /// Goes on with a write that needs room: `reply` is the answer to the call
    /// that wrote what is buffered.
    pub fn write_reply<E>(&mut self, data: &[u8], reply: Result<usize, Failure<E>>) -> (step:
        WriteStep<usize, E>)
        requires
            old(self).wf(),
            old(self)@.buffer.len() > 0,
        ensures
            final(self).wf(),
            final(self).inner() == old(self).inner(),
            (final(self)@, step) == writer_state::write_after(
                old(self)@,
                data@,
                data@.len() as usize,
                reply,
            ),
    {
        match self.flush_buf_reply(reply) {
            FlushStep::Write => WriteStep::Flush,
            FlushStep::Done(Err(e)) => WriteStep::Done(Err(e)),
            FlushStep::Done(Ok(_)) => self.write_settled(data, data.len()),
        }
    }

    /// Buffers `data`, or asks the wrapped writer to write it if it is as large
    /// as the buffer.
    fn write_settled<T, E>(&mut self, data: &[u8], value: T) -> (step: WriteStep<T, E>)
        requires
            old(self).wf(),
            data@.len() < N ==> data@.len() <= old(self)@.spare(),
        ensures
            final(self).wf(),
            final(self).inner() == old(self).inner(),
            (final(self)@, step) == writer_state::write_settled::<T, E>(old(self)@, data@, value),
    {
        if data.len() >= self.capacity() {
            self.panicked = true;
            WriteStep::Direct
        } else {
            self.write_to_buffer_unchecked(data);
            WriteStep::Done(Ok(value))
        }
    }

    /// Takes the wrapped writer's answer to a call that wrote the data itself.
    /// It is the answer of the write.
    pub fn write_direct_done<T, E>(&mut self, reply: Result<T, E>) -> (written: Result<T, Error<E>>)
        requires
            old(self).wf(),
        ensures
            final(self).wf(),
            final(self).inner() == old(self).inner(),
            final(self)@ == old(self)@.returned(),
            written == match reply {
                Ok(t) => Ok::<T, Error<E>>(t),
                Err(e) => Err(Error::Inner(e)),
            },
    {
        self.panicked = false;
        match reply {
            Ok(t) => Ok(t),
            Err(e) => Err(Error::Inner(e)),
        }
    }

    /// Starts to write all of `data`.
    ///
    /// Where the step asks for the data itself to be written, the wrapped
    /// writer must write all of it. The caller goes on with
    /// [`write_all_reply`] or [`write_direct_done`].
    ///
    /// [`write_all_reply`]: StackBufWriter::write_all_reply
    /// [`write_direct_done`]: StackBufWriter::write_direct_done
    pub fn write_all<E>(&mut self, data: &[u8]) -> (step: WriteStep<(), E>)
        requires
            old(self).wf(),
        ensures
            final(self).wf(),
            final(self).inner() == old(self).inner(),
            (final(self)@, step) == writer_state::write_from::<(), E>(old(self)@, data@, ()),
    {
        if data.len() < self.spare_capacity() {
            self.write_to_buffer_unchecked(data);
            WriteStep::Done(Ok(()))
        } else {
            self.write_all_cold(data)
        }
    }

    /// Starts to write all of some data that does not leave room in the buffer.
    fn write_all_cold<E>(&mut self, data: &[u8]) -> (step: WriteStep<(), E>)
        requires
            old(self).wf(),
        ensures
            final(self).wf(),
            final(self).inner() == old(self).inner(),
            (final(self)@, step) == writer_state::write_from::<(), E>(old(self)@, data@, ()),
    {
        if data.len() > self.spare_capacity() {
            match self.flush_buf() {
                FlushStep::Write => {
                    return WriteStep::Flush;
                },
                FlushStep::Done(Err(e)) => {
                    return WriteStep::Done(Err(e));
                },
                FlushStep::Done(Ok(_)) => {},
            }
        }
        self.write_settled(data, ())
    }

    /// Goes on with a write of all of `data` that needs room: `reply` is the
    /// answer to the call that wrote what is buffered.
    pub fn write_all_reply<E>(&mut self, data: &[u8], reply: Result<usize, Failure<E>>) -> (step:
        WriteStep<(), E>)
        requires
            old(self).wf(),
            old(self)@.buffer.len() > 0,
        ensures
            final(self).wf(),
            final(self).inner() == old(self).inner(),
            (final(self)@, step) == writer_state::write_after(old(self)@, data@, (), reply),
    {
        match self.flush_buf_reply(reply) {
            FlushStep::Write => WriteStep::Flush,
            FlushStep::Done(Err(e)) => WriteStep::Done(Err(e)),
            FlushStep::Done(Ok(_)) => self.write_settled(data, ()),
        }
    }

    /// Starts to write several slices, as many of them as can be buffered
    /// after the first that is not empty.
    ///
    /// Where the step is no end, the caller makes the call that it asks for
    /// and goes on with [`write_vectored_reply`] or [`write_direct_done`].
    ///
    /// [`write_vectored_reply`]: StackBufWriter::write_vectored_reply
    /// [`write_direct_done`]: StackBufWriter::write_direct_done
    pub fn write_vectored<E>(&mut self, bufs: &[&[u8]]) -> (step: VectoredStep<E>)
        requires
            old(self).wf(),
        ensures
            final(self).wf(),
            final(self).inner() == old(self).inner(),
            (final(self)@, step) == writer_state::vectored_from::<E>(
                old(self)@,
                bytes::slices(bufs@),
            ),
    {
        let ghost all = bytes::slices(bufs@);
        let mut first: usize = 0;
        while first < bufs.len() && bufs[first].len() == 0
            invariant
                all == bytes::slices(bufs@),
                first <= bufs@.len(),
                writer_state::first_full(all, first as int) == writer_state::first_full(all, 0),
            decreases bufs@.len() - first,
        {
            first = first + 1;
        }
        if first == bufs.len() {
            return VectoredStep::Done(Ok(0));
        }
        if bufs[first].len() > self.spare_capacity() {
            match self.flush_buf() {
                FlushStep::Write => {
                    return VectoredStep::Flush(first);
                },
                FlushStep::Done(Err(e)) => {
                    return VectoredStep::Done(Err(e));
                },
                FlushStep::Done(Ok(_)) => {},
            }
        }
        self.vectored_settled(bufs, first)
    }

    /// Goes on with a write of several slices that needs room for the first
    /// that is not empty, which has the index `first`: `reply` is the answer to
    /// the call that wrote what is buffered.
    pub fn write_vectored_reply<E>(
        &mut self,
        bufs: &[&[u8]],
        first: usize,
        reply: Result<usize, Failure<E>>,
    ) -> (step: VectoredStep<E>)
        requires
            old(self).wf(),
            old(self)@.buffer.len() > 0,
            first < bufs@.len(),
        ensures
            final(self).wf(),
            final(self).inner() == old(self).inner(),
            (final(self)@, step) == writer_state::vectored_after(
                old(self)@,
                bytes::slices(bufs@),
                first as int,
                reply,
            ),
    {
        match self.flush_buf_reply(reply) {
            FlushStep::Write => VectoredStep::Flush(first),
            FlushStep::Done(Err(e)) => VectoredStep::Done(Err(e)),
            FlushStep::Done(Ok(_)) => self.vectored_settled(bufs, first),
        }
    }

    /// Buffers the slices from index `first` on, as many as fit, or asks the
    /// wrapped writer to write the one with that index if it is as large as the
    /// buffer.
    fn vectored_settled<E>(&mut self, bufs: &[&[u8]], first: usize) -> (step: VectoredStep<E>)
        requires
            old(self).wf(),
            first < bufs@.len(),
            bufs@[first as int]@.len() < N ==> bufs@[first as int]@.len() <= old(self)@.spare(),
        ensures
            final(self).wf(),
            final(self).inner() == old(self).inner(),
            (final(self)@, step) == writer_state::vectored_settled::<E>(
                old(self)@,
                bytes::slices(bufs@),
                first as int,
            ),
    {
        if bufs[first].len() >= self.capacity() {
            self.panicked = true;
            return VectoredStep::Direct(first);
        }
        let ghost s = self@;
        let ghost all = bytes::slices(bufs@);
        let ghost end = writer_state::fitting(all, first as int, s.spare());
        let mut total: usize = 0;
        let mut i: usize = first;
        assert(all.subrange(first as int, first as int).flatten() == Seq::<u8>::empty());
        assert(self@ == s.with(Seq::empty()));
        while i < bufs.len() && bufs[i].len() <= self.spare_capacity()
            invariant
                self.wf(),
                self.inner() == old(self).inner(),
                all == bytes::slices(bufs@),
                first <= i <= bufs@.len(),
                self@ == s.with(all.subrange(first as int, i as int).flatten()),
                total == all.subrange(first as int, i as int).flatten().len(),
                s.buffer.len() + total <= N,
                s.capacity == N,
                end == writer_state::fitting(all, first as int, s.spare()),
                writer_state::fitting(all, i as int, self@.spare()) == end,
            decreases bufs@.len() - i,
        {
            proof {
                let done = all.subrange(first as int, i as int);
                assert(all.subrange(first as int, i + 1) == done.push(all[i as int]));
                done.lemma_flatten_push(all[i as int]);
                assert(s.with(done.flatten()).with(all[i as int]) == s.with(
                    done.flatten() + all[i as int],
                ));
            }
            self.write_to_buffer_unchecked(bufs[i]);
            total = total + bufs[i].len();
            i = i + 1;
        }
        VectoredStep::Done(Ok(total))
    }

    /// Starts to flush the writer: writes out the buffer, then asks for the
    /// wrapped writer to be flushed.
    ///
    /// Where the step asks for a write, the caller goes on with
    /// [`follow_reply`].
    ///
    /// [`follow_reply`]: StackBufWriter::follow_reply
    pub fn flush<E>(&mut self) -> (step: FollowStep<E>)
        requires
            old(self).wf(),
        ensures
            final(self).wf(),
            final(self).inner() == old(self).inner(),
            final(self)@ == writer_state::flush_from::<E>(old(self)@).0,
            step == writer_state::follow_step(
                writer_state::flush_from::<E>(old(self)@).1,
                FollowUp::Flush,
            ),
    {
        let step = self.flush_buf();
        Self::follow(step, FollowUp::Flush)
    }

    /// Starts to seek: writes out the buffer, then asks for the wrapped writer
    /// to seek to `target`.
    ///
    /// Where the step asks for a write, the caller goes on with
    /// [`follow_reply`].
    ///
    /// [`follow_reply`]: StackBufWriter::follow_reply
    pub fn seek<E>(&mut self, target: SeekFrom) -> (step: FollowStep<E>)
        requires
            old(self).wf(),
        ensures
            final(self).wf(),
            final(self).inner() == old(self).inner(),
            final(self)@ == writer_state::flush_from::<E>(old(self)@).0,
            step == writer_state::follow_step(
                writer_state::flush_from::<E>(old(self)@).1,
                FollowUp::Seek(target),
            ),
    {
        let step = self.flush_buf();
        Self::follow(step, FollowUp::Seek(target))
    }

    /// Goes on with a flush or a seek: `reply` is the answer to the call that
    /// wrote what is buffered.
    pub fn follow_reply<E>(&mut self, next: FollowUp, reply: Result<usize, Failure<E>>) -> (step:
        FollowStep<E>)
        requires
            old(self).wf(),
            old(self)@.buffer.len() > 0,
        ensures
            final(self).wf(),
            final(self).inner() == old(self).inner(),
            final(self)@ == writer_state::flush_after(old(self)@, reply).0,
            step == writer_state::follow_step(
                writer_state::flush_after(old(self)@, reply).1,
                next,
            ),
    {
        let step = self.flush_buf_reply(reply);
        Self::follow(step, next)
    }

    /// What is left to do for `next` after a step of writing out the buffer.
    fn follow<E>(step: FlushStep<E>, next: FollowUp) -> (left: FollowStep<E>)
        ensures
            left == writer_state::follow_step(step, next),
    {
        match step {
            FlushStep::Write => FollowStep::Write,
            FlushStep::Done(Ok(_)) => FollowStep::Call(next),
            FlushStep::Done(Err(e)) => FollowStep::Failed(e),
        }
    }

    /// Starts to write out the buffer of a writer that goes away, as
    /// [`flush_buf`] does, unless a write of the wrapped writer has begun and
    /// not come back: then it is not asked again.
    ///
    /// [`flush_buf`]: StackBufWriter::flush_buf
    pub fn flush_on_drop<E>(&mut self) -> (step: FlushStep<E>)
        requires
            old(self).wf(),
        ensures
            final(self).wf(),
            final(self).inner() == old(self).inner(),
            (final(self)@, step) == if old(self)@.panicked {
                (old(self)@, FlushStep::Done(Ok::<(), Error<E>>(())))
            } else {
                writer_state::flush_from::<E>(old(self)@)
            },
    {
        if self.panicked {
            FlushStep::Done(Ok(()))
        } else {
            self.flush_buf()
        }
    }
}

} // verus!
