//! The model of a buffered writer: what it holds, and how each operation
//! changes it.

use vstd::prelude::*;

use crate::bytes;
use crate::error::{Error, Failure};
use crate::seek::SeekFrom;

verus! {

/// What writing out the buffer comes to between two calls on the wrapped
/// writer.
#[derive(Debug, PartialEq, Eq)]
pub enum FlushStep<E> {
    /// The wrapped writer must write what is buffered.
    Write,
    /// It is over.
    Done(Result<(), Error<E>>),
}

/// What a write comes to between two calls on the wrapped writer.
#[derive(Debug, PartialEq, Eq)]
pub enum WriteStep<T, E> {
    /// The wrapped writer must write what is buffered, to make room.
    Flush,
    /// The wrapped writer must write the data itself.
    Direct,
    /// The write is over.
    Done(Result<T, Error<E>>),
}

/// What a write of several slices comes to between two calls on the wrapped
/// writer.
#[derive(Debug, PartialEq, Eq)]
pub enum VectoredStep<E> {
    /// The wrapped writer must write what is buffered, to make room for the
    /// slice with this index, the first that is not empty.
    Flush(usize),
    /// The wrapped writer must write the slice with this index itself.
    Direct(usize),
    /// The write is over.
    Done(Result<usize, Error<E>>),
}

/// A call on the wrapped writer that must not overtake the buffered data.
#[derive(Debug, Clone, Copy, PartialEq, Eq)]
pub enum FollowUp {
    /// Flush the wrapped writer.
    Flush,
    /// Seek in the wrapped writer.
    Seek(SeekFrom),
}

/// What such a call comes to between two calls on the wrapped writer.
#[derive(Debug, PartialEq, Eq)]
pub enum FollowStep<E> {
    /// The wrapped writer must write what is buffered.
    Write,
    /// Nothing is buffered any more: the call can be made, and the wrapped
    /// writer's answer to it is the answer.
    Call(FollowUp),
    /// The buffered data could not be written; the call is not made.
    Failed(Error<E>),
}

/// What a buffered writer holds.
#[verifier::ext_equal]
pub struct WriterState {
    /// The bytes that were taken and not yet handed on.
    pub buffer: Seq<u8>,
    /// Whether a write of the wrapped writer has begun and not come back.
    pub panicked: bool,
    /// How many bytes can be buffered.
    pub capacity: int,
}

impl WriterState {
    /// No more is buffered than there is room for.
    pub open spec fn valid(self) -> bool {
        self.buffer.len() <= self.capacity
    }

    /// How many more bytes can be buffered.
    pub open spec fn spare(self) -> int {
        self.capacity - self.buffer.len()
    }

    /// The state with `data` buffered as well.
    pub open spec fn with(self, data: Seq<u8>) -> WriterState {
        WriterState { buffer: self.buffer + data, ..self }
    }

    /// The state without the first `n` buffered bytes, or without any if there
    /// are fewer.
    pub open spec fn without(self, n: int) -> WriterState {
        WriterState {
            buffer: self.buffer.skip(bytes::least(n, self.buffer.len() as int)),
            ..self
        }
    }

    /// The state while the wrapped writer writes.
    pub open spec fn calling(self) -> WriterState {
        WriterState { panicked: true, ..self }
    }

    /// The state once the wrapped writer has come back.
    pub open spec fn returned(self) -> WriterState {
        WriterState { panicked: false, ..self }
    }
}

/// Writing out the buffer starts, or goes on.
pub open spec fn flush_from<E>(s: WriterState) -> (WriterState, FlushStep<E>) {
    if s.buffer.len() == 0 {
        (s, FlushStep::Done(Ok(())))
    } else {
        (s.calling(), FlushStep::Write)
    }
}

/// Writing out the buffer goes on after a call on the wrapped writer. What the
/// wrapped writer took leaves the buffer; that it took nothing is an error.
pub open spec fn flush_after<E>(
    s: WriterState,
    reply: Result<usize, Failure<E>>,
) -> (WriterState, FlushStep<E>) {
    match reply {
        Ok(n) => if n == 0 {
            (s.returned(), FlushStep::Done(Err(Error::WriteZero)))
        } else {
            flush_from(s.returned().without(n as int))
        },
        Err(failure) => if failure.interrupted {
            flush_from(s.returned())
        } else {
            (s.returned(), FlushStep::Done(Err(Error::Inner(failure.error))))
        },
    }
}

/// A write of `data`, answered with `value` if it succeeds, once there is as
/// much room for it as there can be.
pub open spec fn write_settled<T, E>(s: WriterState, data: Seq<u8>, value: T) -> (
    WriterState,
    WriteStep<T, E>,
) {
    if data.len() >= s.capacity {
        (s.calling(), WriteStep::Direct)
    } else {
        (s.with(data), WriteStep::Done(Ok(value)))
    }
}

/// A write starts.
pub open spec fn write_from<T, E>(s: WriterState, data: Seq<u8>, value: T) -> (
    WriterState,
    WriteStep<T, E>,
) {
    if data.len() > s.spare() && s.buffer.len() > 0 {
        (s.calling(), WriteStep::Flush)
    } else {
        write_settled(s, data, value)
    }
}

/// A write goes on after a call on the wrapped writer to make room.
pub open spec fn write_after<T, E>(
    s: WriterState,
    data: Seq<u8>,
    value: T,
    reply: Result<usize, Failure<E>>,
) -> (WriterState, WriteStep<T, E>) {
    let (t, step) = flush_after(s, reply);
    match step {
        FlushStep::Write => (t, WriteStep::Flush),
        FlushStep::Done(Ok(_)) => write_settled(t, data, value),
        FlushStep::Done(Err(e)) => (t, WriteStep::Done(Err(e))),
    }
}

/// The index of the first slice from index `i` on that is not empty, or the
/// number of slices if all are.
pub open spec fn first_full(all: Seq<Seq<u8>>, i: int) -> int
    decreases all.len() - i,
{
    if 0 <= i < all.len() && all[i].len() == 0 {
        first_full(all, i + 1)
    } else {
        i
    }
}

/// The index of the first slice from index `i` on that no longer fits into
/// `room` bytes when all before it are put there.
pub open spec fn fitting(all: Seq<Seq<u8>>, i: int, room: int) -> int
    decreases all.len() - i,
{
    if 0 <= i < all.len() && all[i].len() <= room {
        fitting(all, i + 1, room - all[i].len())
    } else {
        i
    }
}

/// A write of several slices, the first of which that is not empty has the
/// index `first`, once there is as much room for that one as there can be.
pub open spec fn vectored_settled<E>(s: WriterState, all: Seq<Seq<u8>>, first: int) -> (
    WriterState,
    VectoredStep<E>,
) {
    if all[first].len() >= s.capacity {
        (s.calling(), VectoredStep::Direct(first as usize))
    } else {
        let taken = all.subrange(first, fitting(all, first, s.spare())).flatten();
        (s.with(taken), VectoredStep::Done(Ok(taken.len() as usize)))
    }
}

/// A write of several slices starts.
pub open spec fn vectored_from<E>(s: WriterState, all: Seq<Seq<u8>>) -> (
    WriterState,
    VectoredStep<E>,
) {
    let first = first_full(all, 0);
    if first == all.len() {
        (s, VectoredStep::Done(Ok(0)))
    } else if all[first].len() > s.spare() && s.buffer.len() > 0 {
        (s.calling(), VectoredStep::Flush(first as usize))
    } else {
        vectored_settled(s, all, first)
    }
}

/// A write of several slices goes on after a call on the wrapped writer to
/// make room.
pub open spec fn vectored_after<E>(
    s: WriterState,
    all: Seq<Seq<u8>>,
    first: int,
    reply: Result<usize, Failure<E>>,
) -> (WriterState, VectoredStep<E>) {
    let (t, step) = flush_after(s, reply);
    match step {
        FlushStep::Write => (t, VectoredStep::Flush(first as usize)),
        FlushStep::Done(Ok(_)) => vectored_settled(t, all, first),
        FlushStep::Done(Err(e)) => (t, VectoredStep::Done(Err(e))),
    }
}

/// What writing out the buffer comes to where the call `next` is to follow.
pub open spec fn follow_step<E>(step: FlushStep<E>, next: FollowUp) -> FollowStep<E> {
    match step {
        FlushStep::Write => FollowStep::Write,
        FlushStep::Done(Ok(_)) => FollowStep::Call(next),
        FlushStep::Done(Err(e)) => FollowStep::Failed(e),
    }
}

} // verus!
