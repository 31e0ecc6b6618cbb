//! What each call on a buffered writer does, said of the calls themselves: of
//! what goes into them and what comes out.
//!
//! A law speaks of any call with the arguments and the result that it is given.
//! Of a writer it looks at the bytes that are buffered, and at whether a write
//! of the wrapped writer has begun and not come back.

use vstd::prelude::*;

use crate::bytes;
use crate::error::{Error, Failure};
use crate::seek::SeekFrom;
use crate::stack_bufwriter::StackBufWriter;
use crate::writer_laws;
use crate::writer_laws::Operation;
use crate::writer_state;
use crate::writer_state::{FlushStep, FollowStep, FollowUp, VectoredStep, WriteStep};

verus! {

/// A new writer has nothing buffered, no call is out, and it reaches the writer
/// that it was made of.
pub proof fn new_writer_is_empty<W, const N: usize>(
    writer: W,
    made: StackBufWriter<W, N>,
    seen: &W,
)
    requires
        call_ensures(StackBufWriter::<W, N>::new, (writer,), made),
        call_ensures(StackBufWriter::<W, N>::get_ref, (&made,), seen),
    ensures
        made.wf(),
        made@.buffer.len() == 0,
        made@.capacity == N,
        !made@.panicked,
        *seen == writer,
{
}

/// The wrapped writer is reached as it is, and what is done to it is not
/// forgotten. The buffer does not change by that.
pub proof fn wrapped_writer_is_reached<W: ?Sized, const N: usize>(
    w: &mut StackBufWriter<W, N>,
    seen: &W,
    reached: &mut W,
    seen_after: &W,
)
    requires
        old(w).wf(),
        call_ensures(StackBufWriter::<W, N>::get_ref, (&*old(w),), seen),
        call_ensures(StackBufWriter::<W, N>::get_mut, (w,), reached),
        call_ensures(StackBufWriter::<W, N>::get_ref, (&*final(w),), seen_after),
    ensures
        final(w).wf(),
        seen == &*old(reached),
        seen_after == &*final(reached),
        final(w)@ == old(w)@,
{
}

/// The buffer shows all that is buffered, and with the room that is spare it
/// makes up the capacity.
pub proof fn buffer_and_room_make_up_the_capacity<W: ?Sized, const N: usize>(
    w: &StackBufWriter<W, N>,
    buffered: &[u8],
    spare: usize,
    capacity: usize,
)
    requires
        w.wf(),
        call_ensures(StackBufWriter::<W, N>::buffer, (w,), buffered),
        call_ensures(StackBufWriter::<W, N>::spare_capacity, (w,), spare),
        call_ensures(StackBufWriter::<W, N>::capacity, (w,), capacity),
    ensures
        buffered@ == w@.buffer,
        capacity == N,
        w@.capacity == N,
        buffered@.len() + spare == capacity,
{
}

/// A call that writes out the buffer is offered all that is buffered, and the
/// writer itself does not change by it.
pub proof fn flush_offers_the_whole_buffer<W: ?Sized, const N: usize>(
    w: &mut StackBufWriter<W, N>,
    parts: (&[u8], &mut W),
)
    requires
        old(w).wf(),
        call_ensures(StackBufWriter::<W, N>::parts, (w,), parts),
    ensures
        final(w).wf(),
        parts.0@ == old(w)@.buffer,
        &*old(parts.1) == old(w).inner(),
        final(w).inner() == &*final(parts.1),
        final(w)@ == old(w)@,
{
}

/// Data that is put into the buffer stands behind what was there.
pub proof fn buffered_data_stands_behind<W: ?Sized, const N: usize>(
    w: &mut StackBufWriter<W, N>,
    data: &[u8],
)
    requires
        old(w).wf(),
        old(w)@.buffer.len() + data@.len() <= N,
        call_ensures(StackBufWriter::<W, N>::write_to_buffer_unchecked, (w, data), ()),
    ensures
        final(w).wf(),
        final(w).inner() == old(w).inner(),
        final(w)@.buffer == old(w)@.buffer + data@,
        final(w)@.panicked == old(w)@.panicked,
{
}

/// To write out the buffer asks for a write if and only if something is
/// buffered, and does not fail before that. Nothing leaves the buffer, and the
/// call is out if it is asked for.
pub proof fn flush_asks_for_a_write_of_what_is_buffered<W: ?Sized, E, const N: usize>(
    w: &mut StackBufWriter<W, N>,
    step: FlushStep<E>,
)
    requires
        old(w).wf(),
        call_ensures(StackBufWriter::<W, N>::flush_buf::<E>, (w,), step),
    ensures
        final(w).wf(),
        final(w).inner() == old(w).inner(),
        final(w)@.buffer == old(w)@.buffer,
        match step {
            FlushStep::Write => old(w)@.buffer.len() > 0 && final(w)@.panicked,
            FlushStep::Done(end) => {
                &&& end is Ok
                &&& old(w)@.buffer.len() == 0
                &&& final(w)@.panicked == old(w)@.panicked
            },
        },
{
}

/// What an answer of the wrapped writer to a call that wrote `before` means, if
/// it leaves `after` buffered. What was taken leaves the front of the buffer,
/// and nothing else does.
pub open spec fn answer_leaves<E>(
    before: Seq<u8>,
    reply: Result<usize, Failure<E>>,
    after: Seq<u8>,
) -> bool {
    match reply {
        Ok(n) => if n < before.len() {
            after == before.skip(n as int)
        } else {
            after.len() == 0
        },
        Err(_) => after == before,
    }
}

/// What an answer of the wrapped writer that ends writing out the buffer as an
/// error ends it with: that it took nothing is an error, and its own error is
/// one unless it was merely interrupted.
pub open spec fn answer_fails<E>(reply: Result<usize, Failure<E>>) -> Option<Error<E>> {
    match reply {
        Ok(n) => if n == 0 {
            Some(Error::WriteZero)
        } else {
            None
        },
        Err(failure) => if failure.interrupted {
            None
        } else {
            Some(Error::Inner(failure.error))
        },
    }
}

/// Writing out the buffer fails if and only if the answer is a failure, succeeds
/// if and only if nothing is buffered any more, and otherwise asks for what is
/// left to be written. The call has come back, so none is out but one that is
/// asked for.
pub proof fn flush_goes_on_with_what_is_left<W: ?Sized, E, const N: usize>(
    w: &mut StackBufWriter<W, N>,
    reply: Result<usize, Failure<E>>,
    step: FlushStep<E>,
)
    requires
        old(w).wf(),
        old(w)@.buffer.len() > 0,
        call_ensures(StackBufWriter::<W, N>::flush_buf_reply::<E>, (w, reply), step),
    ensures
        final(w).wf(),
        final(w).inner() == old(w).inner(),
        answer_leaves(old(w)@.buffer, reply, final(w)@.buffer),
        final(w)@.panicked <==> step is Write,
        match step {
            FlushStep::Write => answer_fails(reply) is None && final(w)@.buffer.len() > 0,
            FlushStep::Done(Ok(_)) => answer_fails(reply) is None && final(w)@.buffer.len() == 0,
            FlushStep::Done(Err(e)) => answer_fails(reply) == Some(e) && final(w)@.buffer == old(
                w,
            )@.buffer,
        },
{
    assert(old(w)@.buffer.skip(0) == old(w)@.buffer);
}

/// A write does not fail before a call failed. It asks for room if and only if
/// the data does not fit and something is buffered; otherwise it buffers all of
/// the data, or asks for it to be written if it is as large as the buffer. It
/// answers with the length of the data.
pub proof fn write_buffers_or_asks<W: ?Sized, E, const N: usize>(
    w: &mut StackBufWriter<W, N>,
    data: &[u8],
    step: WriteStep<usize, E>,
)
    requires
        old(w).wf(),
        call_ensures(StackBufWriter::<W, N>::write::<E>, (w, data), step),
    ensures
        final(w).wf(),
        final(w).inner() == old(w).inner(),
        step is Flush <==> {
            &&& old(w)@.buffer.len() + data@.len() > N
            &&& old(w)@.buffer.len() > 0
        },
        step is Direct <==> step !is Flush && data@.len() >= N,
        match step {
            WriteStep::Flush => final(w)@.buffer == old(w)@.buffer && final(w)@.panicked,
            WriteStep::Direct => {
                &&& old(w)@.buffer.len() == 0
                &&& final(w)@.buffer.len() == 0
                &&& final(w)@.panicked
            },
            WriteStep::Done(Ok(n)) => {
                &&& n == data@.len()
                &&& final(w)@.buffer == old(w)@.buffer + data@
                &&& final(w)@.panicked == old(w)@.panicked
            },
            WriteStep::Done(Err(_)) => false,
        },
{
    assert(data.len() == data@.len());
}

/// A write of all the data begins as a write does.
pub proof fn write_all_begins_as_write<W: ?Sized, E, const N: usize>(
    w: &mut StackBufWriter<W, N>,
    also: &mut StackBufWriter<W, N>,
    data: &[u8],
    one: WriteStep<usize, E>,
    all: WriteStep<(), E>,
)
    requires
        old(w).wf(),
        old(also).wf(),
        old(also)@ == old(w)@,
        call_ensures(StackBufWriter::<W, N>::write::<E>, (w, data), one),
        call_ensures(StackBufWriter::<W, N>::write_all::<E>, (also, data), all),
    ensures
        final(also).wf(),
        final(also).inner() == old(also).inner(),
        final(also)@ == final(w)@,
        match one {
            WriteStep::Flush => all is Flush,
            WriteStep::Direct => all is Direct,
            WriteStep::Done(Ok(_)) => all matches WriteStep::Done(end) && end is Ok,
            WriteStep::Done(Err(_)) => false,
        },
{
}

/// A write that makes room fails if and only if the answer is a failure, with
/// nothing of the data buffered, and asks again while something is buffered.
/// Once nothing is, it asks for the data to be written if that is as large as
/// the buffer, and buffers it, and only it, if not.
pub proof fn write_goes_on_once_there_is_room<W: ?Sized, E, const N: usize>(
    w: &mut StackBufWriter<W, N>,
    data: &[u8],
    reply: Result<usize, Failure<E>>,
    step: WriteStep<usize, E>,
)
    requires
        old(w).wf(),
        old(w)@.buffer.len() > 0,
        call_ensures(StackBufWriter::<W, N>::write_reply::<E>, (w, data, reply), step),
    ensures
        final(w).wf(),
        final(w).inner() == old(w).inner(),
        final(w)@.panicked <==> step !is Done,
        match step {
            WriteStep::Flush => {
                &&& answer_fails(reply) is None
                &&& answer_leaves(old(w)@.buffer, reply, final(w)@.buffer)
                &&& final(w)@.buffer.len() > 0
            },
            WriteStep::Direct => {
                &&& answer_fails(reply) is None
                &&& answer_leaves(old(w)@.buffer, reply, Seq::empty())
                &&& data@.len() >= N
                &&& final(w)@.buffer.len() == 0
            },
            WriteStep::Done(Ok(n)) => {
                &&& answer_fails(reply) is None
                &&& answer_leaves(old(w)@.buffer, reply, Seq::empty())
                &&& data@.len() < N
                &&& final(w)@.buffer == data@
                &&& n == data@.len()
            },
            WriteStep::Done(Err(e)) => {
                &&& answer_fails(reply) == Some(e)
                &&& final(w)@.buffer == old(w)@.buffer
            },
        },
{
    assert(data.len() == data@.len());
    assert(old(w)@.buffer.skip(0) == old(w)@.buffer);
}

/// A write of all the data goes on as a write does.
pub proof fn write_all_goes_on_as_write<W: ?Sized, E, const N: usize>(
    w: &mut StackBufWriter<W, N>,
    also: &mut StackBufWriter<W, N>,
    data: &[u8],
    reply: Result<usize, Failure<E>>,
    one: WriteStep<usize, E>,
    all: WriteStep<(), E>,
)
    requires
        old(w).wf(),
        old(w)@.buffer.len() > 0,
        old(also).wf(),
        old(also)@ == old(w)@,
        call_ensures(StackBufWriter::<W, N>::write_reply::<E>, (w, data, reply), one),
        call_ensures(StackBufWriter::<W, N>::write_all_reply::<E>, (also, data, reply), all),
    ensures
        final(also).wf(),
        final(also).inner() == old(also).inner(),
        final(also)@ == final(w)@,
        match one {
            WriteStep::Flush => all is Flush,
            WriteStep::Direct => all is Direct,
            WriteStep::Done(Ok(_)) => all matches WriteStep::Done(end) && end is Ok,
            WriteStep::Done(Err(e)) => all == WriteStep::<(), E>::Done(Err(e)),
        },
{
}

/// The answer to a call that wrote the data itself is the answer of the write,
/// and the call has come back. Nothing changes in the buffer.
pub proof fn direct_write_ends_with_the_answer<W: ?Sized, T, E, const N: usize>(
    w: &mut StackBufWriter<W, N>,
    reply: Result<T, E>,
    written: Result<T, Error<E>>,
)
    requires
        old(w).wf(),
        call_ensures(StackBufWriter::<W, N>::write_direct_done::<T, E>, (w, reply), written),
    ensures
        final(w).wf(),
        final(w).inner() == old(w).inner(),
        final(w)@.buffer == old(w)@.buffer,
        !final(w)@.panicked,
        match (reply, written) {
            (Ok(t), Ok(u)) => t == u,
            (Err(e), Err(f)) => f == Error::Inner(e),
            _ => false,
        },
{
}

/// The slices of a row are their contents, in order.
pub proof fn slices_are_the_contents(bufs: Seq<&[u8]>)
    ensures
        bytes::slices(bufs).len() == bufs.len(),
        forall|i: int| 0 <= i < bufs.len() ==> #[trigger] bytes::slices(bufs)[i] == bufs[i]@,
        bytes::slices(bufs) == bufs.map_values(|b: &[u8]| b@),
{
}

/// The slice with the index `first` is the first of these that is not empty, or
/// all are empty and there are `first`.
pub open spec fn is_first_full(all: Seq<Seq<u8>>, first: int) -> bool {
    &&& 0 <= first <= all.len()
    &&& forall|j: int| 0 <= j < first ==> (#[trigger] all[j]).len() == 0
    &&& first < all.len() ==> all[first].len() > 0
}

/// The slices from the index `first` up to `end` fit into `room` bytes, and with
/// the next one they would not.
pub open spec fn is_longest_fit(all: Seq<Seq<u8>>, first: int, end: int, room: int) -> bool {
    &&& 0 <= first <= end <= all.len()
    &&& all.subrange(first, end).flatten().len() <= room
    &&& end < all.len() ==> all.subrange(first, end).flatten().len() + all[end].len() > room
}

/// There is just one first slice that is not empty.
proof fn lemma_first_full(all: Seq<Seq<u8>>, first: int)
    requires
        is_first_full(all, first),
    ensures
        writer_state::first_full(all, 0) == first,
{
    writer_laws::first_full_is_the_first(all, 0);
    let found = writer_state::first_full(all, 0);
    if found < first {
        assert(all[found].len() == 0);
    }
    if first < found {
        assert(all[first].len() == 0);
    }
}

/// There is just one longest row that fits.
proof fn lemma_longest_fit(all: Seq<Seq<u8>>, first: int, end: int, room: int)
    requires
        is_longest_fit(all, first, end, room),
    ensures
        writer_state::fitting(all, first, room) == end,
    decreases end - first,
{
    let part = all.subrange(first, end);
    if first == end {
        assert(part.flatten() == Seq::<u8>::empty());
    } else {
        assert(part.first() == all[first]);
        assert(part.drop_first() == all.subrange(first + 1, end));
        lemma_longest_fit(all, first + 1, end, room - all[first].len());
    }
}

/// A write of several slices passes over those that are empty, and does nothing
/// if all are. For the first that is not, it asks for room if and only if that
/// does not fit and something is buffered, and otherwise for it to be written if
/// it is as large as the buffer. If it asks for neither, it buffers whole slices
/// in order, as many as fit, and answers with the number of their bytes. It does
/// not fail before a call failed.
pub proof fn vectored_write_buffers_or_asks<W: ?Sized, E, const N: usize>(
    w: &mut StackBufWriter<W, N>,
    bufs: &[&[u8]],
    first: int,
    end: int,
    step: VectoredStep<E>,
)
    requires
        old(w).wf(),
        is_first_full(bufs@.map_values(|b: &[u8]| b@), first),
        is_longest_fit(
            bufs@.map_values(|b: &[u8]| b@),
            first,
            end,
            N - old(w)@.buffer.len(),
        ),
        call_ensures(StackBufWriter::<W, N>::write_vectored::<E>, (w, bufs), step),
    ensures
        final(w).wf(),
        final(w).inner() == old(w).inner(),
        step is Flush <==> {
            &&& first < bufs@.len()
            &&& old(w)@.buffer.len() + bufs@[first]@.len() > N
            &&& old(w)@.buffer.len() > 0
        },
        step is Direct <==> step !is Flush && first < bufs@.len() && bufs@[first]@.len() >= N,
        match step {
            VectoredStep::Flush(i) => {
                &&& i == first
                &&& final(w)@.buffer == old(w)@.buffer
                &&& final(w)@.panicked
            },
            VectoredStep::Direct(i) => {
                &&& i == first
                &&& old(w)@.buffer.len() == 0
                &&& final(w)@.buffer.len() == 0
                &&& final(w)@.panicked
            },
            VectoredStep::Done(Ok(n)) => {
                let taken = bufs@.map_values(|b: &[u8]| b@).subrange(first, end).flatten();
                &&& n == taken.len()
                &&& final(w)@.buffer == old(w)@.buffer + taken
                &&& final(w)@.panicked == old(w)@.panicked
            },
            VectoredStep::Done(Err(_)) => false,
        },
{
    let all = bytes::slices(bufs@);
    slices_are_the_contents(bufs@);
    assert(bufs.len() == bufs@.len());
    lemma_first_full(all, first);
    lemma_longest_fit(all, first, end, N - old(w)@.buffer.len());
    if first == bufs@.len() {
        assert(all.subrange(first, end).flatten() == Seq::<u8>::empty());
        assert(old(w)@.buffer + Seq::<u8>::empty() == old(w)@.buffer);
    }
}

/// A write of several slices that makes room fails if and only if the answer is
/// a failure, with nothing of them buffered, and asks again while something is
/// buffered. Once nothing is, it asks for the slice that it made room for to be
/// written if that is as large as the buffer, and if not buffers whole slices
/// from that one on, as many as fit.
pub proof fn vectored_write_goes_on_once_there_is_room<W: ?Sized, E, const N: usize>(
    w: &mut StackBufWriter<W, N>,
    bufs: &[&[u8]],
    first: usize,
    end: int,
    reply: Result<usize, Failure<E>>,
    step: VectoredStep<E>,
)
    requires
        old(w).wf(),
        old(w)@.buffer.len() > 0,
        first < bufs@.len(),
        is_longest_fit(bufs@.map_values(|b: &[u8]| b@), first as int, end, N as int),
        call_ensures(
            StackBufWriter::<W, N>::write_vectored_reply::<E>,
            (w, bufs, first, reply),
            step,
        ),
    ensures
        final(w).wf(),
        final(w).inner() == old(w).inner(),
        final(w)@.panicked <==> step !is Done,
        match step {
            VectoredStep::Flush(i) => {
                &&& i == first
                &&& answer_fails(reply) is None
                &&& answer_leaves(old(w)@.buffer, reply, final(w)@.buffer)
                &&& final(w)@.buffer.len() > 0
            },
            VectoredStep::Direct(i) => {
                &&& i == first
                &&& answer_fails(reply) is None
                &&& answer_leaves(old(w)@.buffer, reply, Seq::empty())
                &&& bufs@[first as int]@.len() >= N
                &&& final(w)@.buffer.len() == 0
            },
            VectoredStep::Done(Ok(n)) => {
                &&& answer_fails(reply) is None
                &&& answer_leaves(old(w)@.buffer, reply, Seq::empty())
                &&& bufs@[first as int]@.len() < N
                &&& final(w)@.buffer == bufs@.map_values(|b: &[u8]| b@).subrange(
                    first as int,
                    end,
                ).flatten()
                &&& n == final(w)@.buffer.len()
            },
            VectoredStep::Done(Err(e)) => {
                &&& answer_fails(reply) == Some(e)
                &&& final(w)@.buffer == old(w)@.buffer
            },
        },
{
    let all = bytes::slices(bufs@);
    slices_are_the_contents(bufs@);
    assert(bufs.len() == bufs@.len());
    assert(old(w)@.buffer.skip(0) == old(w)@.buffer);
    lemma_longest_fit(all, first as int, end, N as int);
}

/// A flush makes its call on the wrapped writer at once if nothing is buffered,
/// and asks for what is buffered to be written if something is. It does not fail
/// before a call failed.
pub proof fn flush_follows_the_buffer<W: ?Sized, E, const N: usize>(
    w: &mut StackBufWriter<W, N>,
    step: FollowStep<E>,
)
    requires
        old(w).wf(),
        call_ensures(StackBufWriter::<W, N>::flush::<E>, (w,), step),
    ensures
        final(w).wf(),
        final(w).inner() == old(w).inner(),
        final(w)@.buffer == old(w)@.buffer,
        match step {
            FollowStep::Write => old(w)@.buffer.len() > 0 && final(w)@.panicked,
            FollowStep::Call(call) => {
                &&& call == FollowUp::Flush
                &&& old(w)@.buffer.len() == 0
                &&& final(w)@.panicked == old(w)@.panicked
            },
            FollowStep::Failed(_) => false,
        },
{
}

/// A seek does the same, for every target, and its call is a seek to that
/// target.
pub proof fn seek_follows_the_buffer<W: ?Sized, E, const N: usize>(
    w: &mut StackBufWriter<W, N>,
    target: SeekFrom,
    step: FollowStep<E>,
)
    requires
        old(w).wf(),
        call_ensures(StackBufWriter::<W, N>::seek::<E>, (w, target), step),
    ensures
        final(w).wf(),
        final(w).inner() == old(w).inner(),
        final(w)@.buffer == old(w)@.buffer,
        match step {
            FollowStep::Write => old(w)@.buffer.len() > 0 && final(w)@.panicked,
            FollowStep::Call(call) => {
                &&& call == FollowUp::Seek(target)
                &&& old(w)@.buffer.len() == 0
                &&& final(w)@.panicked == old(w)@.panicked
            },
            FollowStep::Failed(_) => false,
        },
{
}

/// A flush or a seek fails if and only if the answer to a call that wrote what
/// is buffered is a failure, makes its call as soon as nothing is buffered any
/// more, whatever call that is, and otherwise asks for what is left to be
/// written.
pub proof fn call_follows_once_the_buffer_is_written<W: ?Sized, E, const N: usize>(
    w: &mut StackBufWriter<W, N>,
    next: FollowUp,
    reply: Result<usize, Failure<E>>,
    step: FollowStep<E>,
)
    requires
        old(w).wf(),
        old(w)@.buffer.len() > 0,
        call_ensures(StackBufWriter::<W, N>::follow_reply::<E>, (w, next, reply), step),
    ensures
        final(w).wf(),
        final(w).inner() == old(w).inner(),
        answer_leaves(old(w)@.buffer, reply, final(w)@.buffer),
        final(w)@.panicked <==> step is Write,
        match step {
            FollowStep::Write => answer_fails(reply) is None && final(w)@.buffer.len() > 0,
            FollowStep::Call(call) => {
                &&& call == next
                &&& answer_fails(reply) is None
                &&& final(w)@.buffer.len() == 0
            },
            FollowStep::Failed(e) => {
                &&& answer_fails(reply) == Some(e)
                &&& final(w)@.buffer == old(w)@.buffer
            },
        },
{
    assert(old(w)@.buffer.skip(0) == old(w)@.buffer);
}

/// A writer that goes away asks for what is buffered to be written, if anything
/// is, unless a call is out that never came back: then it asks for nothing, and
/// stays as it is.
pub proof fn drop_writes_unless_a_call_is_out<W: ?Sized, E, const N: usize>(
    w: &mut StackBufWriter<W, N>,
    step: FlushStep<E>,
)
    requires
        old(w).wf(),
        call_ensures(StackBufWriter::<W, N>::flush_on_drop::<E>, (w,), step),
    ensures
        final(w).wf(),
        final(w).inner() == old(w).inner(),
        final(w)@.buffer == old(w)@.buffer,
        step is Write <==> !old(w)@.panicked && old(w)@.buffer.len() > 0,
        final(w)@.panicked <==> old(w)@.panicked || step is Write,
        step matches FlushStep::Done(end) ==> end is Ok,
{
}

/// A writer in whose life each call came back asks, when it goes away, for all
/// that is buffered to be written; and if the wrapped writer takes that, it has
/// all the bytes that were ever taken, in order.
pub proof fn dropped_writer_leaves_nothing_behind<W: ?Sized, E, const N: usize>(
    made: &StackBufWriter<W, N>,
    ops: Seq<Operation<E>>,
    w: &mut StackBufWriter<W, N>,
    step: FlushStep<E>,
    replies: Seq<Result<usize, Failure<E>>>,
)
    requires
        made.wf(),
        made@.buffer.len() == 0,
        !made@.panicked,
        forall|i: int| 0 <= i < ops.len() ==> writer_laws::sound(#[trigger] ops[i]),
        writer_laws::all_over(made@, ops),
        old(w).wf(),
        old(w)@ == writer_laws::history(made@, ops).state,
        call_ensures(StackBufWriter::<W, N>::flush_on_drop::<E>, (w,), step),
        forall|i: int|
            0 <= i < replies.len() ==> (#[trigger] replies[i]) is Ok && replies[i]->Ok_0 > 0,
        replies.len() >= old(w)@.buffer.len(),
    ensures
        step is Write <==> old(w)@.buffer.len() > 0,
        writer_laws::history(made@, ops).sent + writer_laws::flush_run(
            old(w)@,
            replies,
        ).sent == writer_laws::history(made@, ops).taken,
{
    writer_laws::no_call_is_out_if_each_came_back(made@, ops);
    writer_laws::history_conserves(made@, ops);
    writer_laws::flush_finishes(old(w)@, replies);
    writer_laws::flush_conserves(old(w)@, replies);
    let h = writer_laws::history(made@, ops);
    assert(made@.buffer + h.taken == h.taken);
}

} // verus!
