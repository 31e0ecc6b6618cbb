//! What holds of a buffered writer over any number of calls, whatever the
//! wrapped writer answers.

use vstd::prelude::*;

use crate::bytes;
use crate::error::{Error, Failure};
use crate::writer_state;
use crate::writer_state::{FlushStep, FollowStep, FollowUp, VectoredStep, WriteStep, WriterState};

verus! {

/// How many of the `offered` bytes the wrapped writer took.
pub open spec fn count<E>(reply: Result<usize, Failure<E>>, offered: int) -> int {
    match reply {
        Ok(n) => bytes::least(n as int, offered),
        Err(_) => 0,
    }
}

/// Writing out the buffer, from its start to the last answer so far.
pub struct FlushRun<E> {
    /// What the writer holds.
    pub state: WriterState,
    /// What comes next.
    pub step: FlushStep<E>,
    /// The bytes that the wrapped writer took, in order.
    pub sent: Seq<u8>,
}

/// Writing out the buffer, with these answers of the wrapped writer. Answers
/// after the end are not asked for.
pub open spec fn flush_run<E>(s: WriterState, replies: Seq<Result<usize, Failure<E>>>) -> FlushRun<
    E,
>
    decreases replies.len(),
{
    if replies.len() == 0 {
        let (state, step) = writer_state::flush_from(s);
        FlushRun { state, step, sent: Seq::empty() }
    } else {
        let run = flush_run(s, replies.drop_last());
        if run.step is Write {
            let offered = run.state.buffer;
            let (state, step) = writer_state::flush_after(run.state, replies.last());
            FlushRun {
                state,
                step,
                sent: run.sent + offered.take(count(replies.last(), offered.len() as int)),
            }
        } else {
            run
        }
    }
}

/// Writing out the buffer neither loses nor repeats nor reorders a byte: what
/// the wrapped writer took, followed by what is still buffered, is what was
/// buffered at the start. So a flush that fails keeps exactly the bytes that
/// were not written, and one that succeeds has written all of them.
pub proof fn flush_conserves<E>(s: WriterState, replies: Seq<Result<usize, Failure<E>>>)
    requires
        s.valid(),
    ensures
        ({
            let run = flush_run(s, replies);
            &&& run.sent + run.state.buffer == s.buffer
            &&& run.state.capacity == s.capacity
            &&& run.state.valid()
            &&& run.step is Write ==> run.state.buffer.len() > 0
            &&& run.step == FlushStep::<E>::Done(Ok(())) ==> run.state.buffer.len() == 0
                && run.sent == s.buffer
        }),
    decreases replies.len(),
{
    if replies.len() > 0 {
        flush_conserves(s, replies.drop_last());
        let before = flush_run(s, replies.drop_last());
        let run = flush_run(s, replies);
        if before.step is Write {
            let offered = before.state.buffer;
            let n = count(replies.last(), offered.len() as int);
            assert(offered.take(n) + offered.skip(n) == offered);
            assert(offered.skip(0) == offered);
            assert(run.state.buffer == offered.skip(n));
            assert(before.sent + offered.take(n) + offered.skip(n) == before.sent + offered);
        }
    } else {
        let run = flush_run(s, replies);
        assert(run.sent + run.state.buffer == s.buffer);
    }
    let run = flush_run(s, replies);
    if run.state.buffer.len() == 0 {
        assert(run.sent + run.state.buffer == run.sent);
    }
}

/// A wrapped writer that takes a byte whenever it is offered some gets the
/// whole buffer, in no more calls than there are bytes.
pub proof fn flush_finishes<E>(s: WriterState, replies: Seq<Result<usize, Failure<E>>>)
    requires
        s.valid(),
        forall|i: int| 0 <= i < replies.len() ==> (#[trigger] replies[i]) is Ok && replies[i]->Ok_0 > 0,
    ensures
        flush_run(s, replies).step == FlushStep::<E>::Done(Ok(())) || (flush_run(s, replies).step
            is Write && flush_run(s, replies).state.buffer.len() + replies.len() <= s.buffer.len()),
        replies.len() >= s.buffer.len() ==> flush_run(s, replies).step == FlushStep::<E>::Done(
            Ok(()),
        ),
    decreases replies.len(),
{
    flush_conserves(s, replies);
    if replies.len() > 0 {
        let fewer = replies.drop_last();
        assert forall|i: int| 0 <= i < fewer.len() implies (#[trigger] fewer[i]) is Ok
            && fewer[i]->Ok_0 > 0 by {
            assert(fewer[i] == replies[i]);
        }
        assert(replies.last() == replies[replies.len() - 1]);
        flush_finishes(s, fewer);
        flush_conserves(s, fewer);
    }
}

/// A write that took none of the bytes it was offered is reported, and nothing
/// is lost by it.
pub proof fn zero_write_is_an_error<E>(s: WriterState)
    ensures
        writer_state::flush_after::<E>(s, Ok(0)) == (
            s.returned(),
            FlushStep::<E>::Done(Err(Error::WriteZero)),
        ),
        s.returned().buffer == s.buffer,
{
}

/// The error `e` is what this answer of the wrapped writer gave: its own error,
/// unless it was merely interrupted, or that it took nothing.
pub open spec fn gave<E>(reply: Result<usize, Failure<E>>, e: Error<E>) -> bool {
    match reply {
        Ok(n) => n == 0 && e is WriteZero,
        Err(failure) => !failure.interrupted && e == Error::Inner(failure.error),
    }
}

/// Writing out the buffer fails only with an error that a call gave, and if a
/// call that it asks for gives one, with that. A call that was interrupted is
/// asked for again.
pub proof fn flush_fails_only_if_a_call_did<E>(
    s: WriterState,
    replies: Seq<Result<usize, Failure<E>>>,
)
    ensures
        flush_run(s, replies).step matches FlushStep::Done(Err(e)) ==> exists|i: int|
            0 <= i < replies.len() && #[trigger] gave(replies[i], e),
        replies.len() > 0 && flush_run(s, replies.drop_last()).step is Write ==> {
            &&& forall|e: Error<E>| #[trigger]
                gave(replies.last(), e) ==> flush_run(s, replies).step == FlushStep::<E>::Done(
                    Err(e),
                )
            &&& replies.last() matches Err(failure) ==> failure.interrupted ==> flush_run(
                s,
                replies,
            ).state.buffer == flush_run(s, replies.drop_last()).state.buffer
        },
    decreases replies.len(),
{
    if replies.len() > 0 {
        let fewer = replies.drop_last();
        flush_fails_only_if_a_call_did(s, fewer);
        let before = flush_run(s, fewer);
        if let FlushStep::Done(Err(e)) = flush_run(s, replies).step {
            if before.step is Write {
                assert(gave(replies[replies.len() - 1], e));
            } else {
                let i = choose|i: int| 0 <= i < fewer.len() && #[trigger] gave(fewer[i], e);
                assert(gave(replies[i], e));
            }
        }
    }
}

/// A call is out exactly while writing out the buffer asks for one, or if one
/// was out before that never came back and none was asked for since.
pub proof fn flush_call_comes_back<E>(s: WriterState, replies: Seq<Result<usize, Failure<E>>>)
    ensures
        flush_run(s, replies).step is Write ==> flush_run(s, replies).state.panicked,
        flush_run(s, replies).step !is Write && !s.panicked ==> !flush_run(
            s,
            replies,
        ).state.panicked,
        flush_run(s, replies).step !is Write && s.buffer.len() > 0 ==> !flush_run(
            s,
            replies,
        ).state.panicked,
    decreases replies.len(),
{
    if replies.len() > 0 {
        flush_call_comes_back(s, replies.drop_last());
    }
}

/// A write, from its start to the last answer so far.
pub struct WriteRun<T, E> {
    /// What the writer holds.
    pub state: WriterState,
    /// What comes next.
    pub step: WriteStep<T, E>,
    /// The bytes that the wrapped writer took from the buffer, in order.
    pub sent: Seq<u8>,
}

/// A write of `data`, answered with `value` if it succeeds without the wrapped
/// writer writing `data` itself, with these answers of the wrapped writer to
/// the calls that make room.
pub open spec fn write_run<T, E>(
    s: WriterState,
    data: Seq<u8>,
    value: T,
    replies: Seq<Result<usize, Failure<E>>>,
) -> WriteRun<T, E>
    decreases replies.len(),
{
    if replies.len() == 0 {
        let (state, step) = writer_state::write_from(s, data, value);
        WriteRun { state, step, sent: Seq::empty() }
    } else {
        let run = write_run(s, data, value, replies.drop_last());
        if run.step is Flush {
            let offered = run.state.buffer;
            let (state, step) = writer_state::write_after(run.state, data, value, replies.last());
            WriteRun {
                state,
                step,
                sent: run.sent + offered.take(count(replies.last(), offered.len() as int)),
            }
        } else {
            run
        }
    }
}

/// A write keeps the order of the bytes. What was buffered before goes to the
/// wrapped writer before `data` does. If the write succeeds without the wrapped
/// writer writing `data` itself, all of `data` is buffered behind what is left
/// of the earlier bytes; if it fails, none of it is. The wrapped writer is
/// asked to write `data` itself only once it has taken all that came before.
pub proof fn write_conserves<T, E>(
    s: WriterState,
    data: Seq<u8>,
    value: T,
    replies: Seq<Result<usize, Failure<E>>>,
)
    requires
        s.valid(),
    ensures
        ({
            let run = write_run(s, data, value, replies);
            &&& run.state.valid()
            &&& run.state.capacity == s.capacity
            &&& match run.step {
                WriteStep::Flush => run.sent + run.state.buffer == s.buffer
                    && run.state.buffer.len() > 0,
                WriteStep::Direct => run.sent == s.buffer && run.state.buffer.len() == 0
                    && data.len() >= s.capacity,
                WriteStep::Done(Ok(t)) => run.sent + run.state.buffer == s.buffer + data && t
                    == value,
                WriteStep::Done(Err(_)) => run.sent + run.state.buffer == s.buffer,
            }
        }),
    decreases replies.len(),
{
    let run = write_run(s, data, value, replies);
    if replies.len() == 0 {
        assert(run.sent + run.state.buffer == run.state.buffer);
    } else {
        write_conserves(s, data, value, replies.drop_last());
        let before = write_run(s, data, value, replies.drop_last());
        if before.step is Flush {
            let offered = before.state.buffer;
            let n = count(replies.last(), offered.len() as int);
            let (t, _) = writer_state::flush_after(before.state, replies.last());
            assert(offered.skip(0) == offered);
            assert(t.buffer == offered.skip(n));
            assert(run.sent + t.buffer == before.sent + offered);
            if t.buffer.len() == 0 {
                assert(run.sent == s.buffer);
                assert(run.sent + (t.buffer + data) == s.buffer + data);
            }
        }
    }
}

/// A write fails only with an error that a call gave, and if a call that it asks
/// for to make room gives one, with that.
pub proof fn write_fails_only_if_a_call_did<T, E>(
    s: WriterState,
    data: Seq<u8>,
    value: T,
    replies: Seq<Result<usize, Failure<E>>>,
)
    ensures
        write_run(s, data, value, replies).step matches WriteStep::Done(Err(e)) ==> exists|i: int|
            0 <= i < replies.len() && #[trigger] gave(replies[i], e),
        replies.len() > 0 && write_run(s, data, value, replies.drop_last()).step is Flush ==> forall|
            e: Error<E>,
        | #[trigger]
            gave(replies.last(), e) ==> write_run(s, data, value, replies).step == WriteStep::<
                T,
                E,
            >::Done(Err(e)),
    decreases replies.len(),
{
    if replies.len() > 0 {
        let fewer = replies.drop_last();
        write_fails_only_if_a_call_did(s, data, value, fewer);
        let before = write_run(s, data, value, fewer);
        if let WriteStep::Done(Err(e)) = write_run(s, data, value, replies).step {
            if before.step is Flush {
                assert(gave(replies[replies.len() - 1], e));
            } else {
                let i = choose|i: int| 0 <= i < fewer.len() && #[trigger] gave(fewer[i], e);
                assert(gave(replies[i], e));
            }
        }
    }
}

/// With a wrapped writer that takes a byte whenever it is offered some, a write
/// does not fail, and has its room in no more calls than bytes are buffered.
/// Data that is as large as the buffer is then to be written itself, and any
/// other is buffered.
pub proof fn write_finishes<T, E>(
    s: WriterState,
    data: Seq<u8>,
    value: T,
    replies: Seq<Result<usize, Failure<E>>>,
)
    requires
        s.valid(),
        forall|i: int| 0 <= i < replies.len() ==> (#[trigger] replies[i]) is Ok && replies[i]->Ok_0 > 0,
    ensures
        ({
            let run = write_run(s, data, value, replies);
            &&& match run.step {
                WriteStep::Flush => run.state.buffer.len() + replies.len() <= s.buffer.len(),
                WriteStep::Direct => data.len() >= s.capacity,
                WriteStep::Done(end) => end is Ok && data.len() < s.capacity,
            }
            &&& replies.len() >= s.buffer.len() ==> run.step !is Flush
        }),
    decreases replies.len(),
{
    write_conserves(s, data, value, replies);
    if replies.len() > 0 {
        let fewer = replies.drop_last();
        assert forall|i: int| 0 <= i < fewer.len() implies (#[trigger] fewer[i]) is Ok
            && fewer[i]->Ok_0 > 0 by {
            assert(fewer[i] == replies[i]);
        }
        assert(replies.last() == replies[replies.len() - 1]);
        write_finishes(s, data, value, fewer);
        write_conserves(s, data, value, fewer);
    }
}

/// A call is out exactly while a write asks for one, or if one was out before
/// that never came back and none was asked for since.
pub proof fn write_call_comes_back<T, E>(
    s: WriterState,
    data: Seq<u8>,
    value: T,
    replies: Seq<Result<usize, Failure<E>>>,
)
    ensures
        write_run(s, data, value, replies).step !is Done ==> write_run(
            s,
            data,
            value,
            replies,
        ).state.panicked,
        write_run(s, data, value, replies).step is Done && !s.panicked ==> !write_run(
            s,
            data,
            value,
            replies,
        ).state.panicked,
    decreases replies.len(),
{
    if replies.len() > 0 {
        write_call_comes_back(s, data, value, replies.drop_last());
    }
}

/// As many bytes as there is spare room for can be written without flushing.
/// Unless they are as many as the buffer can hold at all, they are buffered,
/// and the wrapped writer is not asked for anything.
pub proof fn spare_room_needs_no_flush<T, E>(s: WriterState, data: Seq<u8>, value: T)
    requires
        s.valid(),
        data.len() <= s.spare(),
    ensures
        writer_state::write_from::<T, E>(s, data, value).1 !is Flush,
        data.len() < s.capacity ==> writer_state::write_from::<T, E>(s, data, value) == (
            s.with(data),
            WriteStep::<T, E>::Done(Ok(value)),
        ),
{
}

/// All of these writes, one after the other, end in the buffer, and the wrapped
/// writer is not asked for anything.
pub open spec fn all_buffered<E>(s: WriterState, parts: Seq<Seq<u8>>) -> bool
    decreases parts.len(),
{
    parts.len() == 0 || {
        let (t, step) = writer_state::write_from::<(), E>(s, parts.first(), ());
        &&& step == WriteStep::<(), E>::Done(Ok(()))
        &&& t == s.with(parts.first())
        &&& all_buffered::<E>(t, parts.drop_first())
    }
}

/// It makes no difference in how many writes the spare room is used up, as long
/// as none is as large as the whole buffer.
pub proof fn spare_room_takes_many_writes<E>(s: WriterState, parts: Seq<Seq<u8>>)
    requires
        s.valid(),
        parts.flatten().len() <= s.spare(),
        forall|i: int| 0 <= i < parts.len() ==> (#[trigger] parts[i]).len() < s.capacity,
    ensures
        all_buffered::<E>(s, parts),
    decreases parts.len(),
{
    if parts.len() > 0 {
        let rest = parts.drop_first();
        assert(parts.first() == parts[0]);
        assert(parts.flatten().len() == parts.first().len() + rest.flatten().len());
        spare_room_needs_no_flush::<(), E>(s, parts.first(), ());
        assert forall|i: int| 0 <= i < rest.len() implies (#[trigger] rest[i]).len()
            < s.capacity by {
            assert(rest[i] == parts[i + 1]);
        }
        spare_room_takes_many_writes::<E>(s.with(parts.first()), rest);
    }
}

/// The wrapped writer is flushed, or seeks, only once it has taken all that was
/// buffered.
pub proof fn buffered_data_is_not_overtaken<E>(
    s: WriterState,
    next: FollowUp,
    replies: Seq<Result<usize, Failure<E>>>,
)
    requires
        s.valid(),
    ensures
        ({
            let run = flush_run(s, replies);
            &&& writer_state::follow_step(run.step, next) is Call ==> run.sent == s.buffer
                && run.state.buffer.len() == 0
            &&& writer_state::follow_step(run.step, next) matches FollowStep::Call(call) ==> call
                == next
        }),
{
    flush_conserves(s, replies);
    if let FlushStep::Done(Ok(unit)) = flush_run(s, replies).step {
        assert(unit == ());
    }
}

/// A call that follows is made if and only if writing out the buffer has ended
/// well, whatever call it is, and fails if and only if that has failed, with the
/// same error.
pub proof fn call_follows_a_good_end<E>(step: FlushStep<E>, next: FollowUp)
    ensures
        match writer_state::follow_step(step, next) {
            FollowStep::Write => step is Write,
            FollowStep::Call(call) => call == next && step == FlushStep::<E>::Done(Ok(())),
            FollowStep::Failed(e) => step == FlushStep::<E>::Done(Err(e)),
        },
{
    if let FlushStep::Done(Ok(unit)) = step {
        assert(unit == ());
    }
}

/// A write of several slices, from its start to the last answer so far.
pub struct VectoredRun<E> {
    /// What the writer holds.
    pub state: WriterState,
    /// What comes next.
    pub step: VectoredStep<E>,
    /// The bytes that the wrapped writer took from the buffer, in order.
    pub sent: Seq<u8>,
}

/// A write of several slices, with these answers of the wrapped writer to the
/// calls that make room.
pub open spec fn vectored_run<E>(
    s: WriterState,
    all: Seq<Seq<u8>>,
    replies: Seq<Result<usize, Failure<E>>>,
) -> VectoredRun<E>
    decreases replies.len(),
{
    if replies.len() == 0 {
        let (state, step) = writer_state::vectored_from(s, all);
        VectoredRun { state, step, sent: Seq::empty() }
    } else {
        let run = vectored_run(s, all, replies.drop_last());
        match run.step {
            VectoredStep::Flush(first) => {
                let offered = run.state.buffer;
                let (state, step) = writer_state::vectored_after(
                    run.state,
                    all,
                    first as int,
                    replies.last(),
                );
                VectoredRun {
                    state,
                    step,
                    sent: run.sent + offered.take(count(replies.last(), offered.len() as int)),
                }
            },
            _ => run,
        }
    }
}

/// [`first_full`](writer_state::first_full) is the first slice that is not
/// empty: those before it are, and add nothing.
pub proof fn first_full_is_the_first(all: Seq<Seq<u8>>, i: int)
    requires
        0 <= i <= all.len(),
    ensures
        i <= writer_state::first_full(all, i) <= all.len(),
        forall|j: int| i <= j < writer_state::first_full(all, i) ==> (#[trigger] all[j]).len() == 0,
        writer_state::first_full(all, i) < all.len() ==> all[writer_state::first_full(
            all,
            i,
        )].len() > 0,
        all.subrange(i, writer_state::first_full(all, i)).flatten().len() == 0,
    decreases all.len() - i,
{
    let end = writer_state::first_full(all, i);
    if i < all.len() && all[i].len() == 0 {
        first_full_is_the_first(all, i + 1);
        let part = all.subrange(i, end);
        assert(part.first() == all[i]);
        assert(part.drop_first() == all.subrange(i + 1, end));
    } else {
        assert(all.subrange(i, end) == Seq::<Seq<u8>>::empty());
    }
}

/// [`fitting`](writer_state::fitting) ends the longest row of whole slices that
/// fits: the slices before it fit together, and with the next one they would
/// not.
pub proof fn fitting_is_the_longest(all: Seq<Seq<u8>>, i: int, room: int)
    requires
        0 <= i <= all.len(),
        0 <= room,
    ensures
        i <= writer_state::fitting(all, i, room) <= all.len(),
        all.subrange(i, writer_state::fitting(all, i, room)).flatten().len() <= room,
        writer_state::fitting(all, i, room) < all.len() ==> all.subrange(
            i,
            writer_state::fitting(all, i, room),
        ).flatten().len() + all[writer_state::fitting(all, i, room)].len() > room,
    decreases all.len() - i,
{
    let end = writer_state::fitting(all, i, room);
    if i < all.len() && all[i].len() <= room {
        fitting_is_the_longest(all, i + 1, room - all[i].len());
        let part = all.subrange(i, end);
        assert(part.first() == all[i]);
        assert(part.drop_first() == all.subrange(i + 1, end));
    } else {
        assert(all.subrange(i, end) == Seq::<Seq<u8>>::empty());
    }
}

/// A write of several slices keeps the order of the bytes as a write does, and
/// what it takes of the slices is a prefix of all their bytes: what it buffers
/// if it succeeds, and what it asks the wrapped writer to write itself once
/// that has taken all that came before.
pub proof fn vectored_conserves<E>(
    s: WriterState,
    all: Seq<Seq<u8>>,
    replies: Seq<Result<usize, Failure<E>>>,
)
    requires
        s.valid(),
        s.capacity <= usize::MAX,
        all.len() <= usize::MAX,
    ensures
        ({
            let run = vectored_run(s, all, replies);
            &&& run.state.valid()
            &&& run.state.capacity == s.capacity
            &&& match run.step {
                VectoredStep::Flush(first) => run.sent + run.state.buffer == s.buffer
                    && run.state.buffer.len() > 0 && first == writer_state::first_full(all, 0)
                    && first < all.len(),
                VectoredStep::Direct(first) => run.sent == s.buffer && run.state.buffer.len() == 0
                    && first < all.len() && all[first as int].len() >= s.capacity
                    && all[first as int].is_prefix_of(all.flatten()),
                VectoredStep::Done(Ok(n)) => n <= all.flatten().len() && run.sent
                    + run.state.buffer == s.buffer + all.flatten().take(n as int),
                VectoredStep::Done(Err(_)) => run.sent + run.state.buffer == s.buffer,
            }
        }),
    decreases replies.len(),
{
    let run = vectored_run(s, all, replies);
    let first = writer_state::first_full(all, 0);
    first_full_is_the_first(all, 0);
    if replies.len() == 0 {
        assert(run.sent + run.state.buffer == run.state.buffer);
        if first < all.len() && !(all[first].len() > s.spare() && s.buffer.len() > 0) {
            lemma_vectored_settled::<E>(s, all);
        } else {
            assert(s.buffer + all.flatten().take(0) == s.buffer);
        }
    } else {
        vectored_conserves(s, all, replies.drop_last());
        let before = vectored_run(s, all, replies.drop_last());
        if before.step is Flush {
            let offered = before.state.buffer;
            let n = count(replies.last(), offered.len() as int);
            let (t, _) = writer_state::flush_after(before.state, replies.last());
            assert(offered.skip(0) == offered);
            assert(t.buffer == offered.skip(n));
            assert(run.sent + t.buffer == before.sent + offered);
            if t.buffer.len() == 0 {
                assert(run.sent == s.buffer);
                lemma_vectored_settled::<E>(t, all);
                if run.step is Done && run.step->Done_0 is Ok {
                    let k = run.step->Done_0->Ok_0 as int;
                    assert(run.state.buffer == all.flatten().take(k));
                }
            }
        }
    }
}

/// What the last part of a write of several slices takes is a prefix of all
/// their bytes.
proof fn lemma_vectored_settled<E>(s: WriterState, all: Seq<Seq<u8>>)
    requires
        s.valid(),
        s.capacity <= usize::MAX,
        all.len() <= usize::MAX,
        writer_state::first_full(all, 0) < all.len(),
        all[writer_state::first_full(all, 0)].len() > s.spare() ==> s.buffer.len() == 0,
    ensures
        ({
            let first = writer_state::first_full(all, 0);
            let (t, step) = writer_state::vectored_settled::<E>(s, all, first);
            &&& t.valid()
            &&& t.capacity == s.capacity
            &&& match step {
                VectoredStep::Direct(i) => i == first && s.buffer.len() == 0 && t.buffer == s.buffer
                    && all[first].len() >= s.capacity && all[first].is_prefix_of(all.flatten()),
                VectoredStep::Done(Ok(n)) => n <= all.flatten().len() && t.buffer == s.buffer
                    + all.flatten().take(n as int),
                _ => false,
            }
        }),
{
    let first = writer_state::first_full(all, 0);
    first_full_is_the_first(all, 0);
    fitting_is_the_longest(all, first, s.spare());
    let end = writer_state::fitting(all, first, s.spare());
    let skipped = all.subrange(0, first);
    if all[first].len() >= s.capacity {
        let rest = all.subrange(first + 1, all.len() as int);
        assert(all == skipped.push(all[first]) + rest);
        skipped.lemma_flatten_push(all[first]);
        vstd::seq_lib::lemma_flatten_concat(skipped.push(all[first]), rest);
        assert(all.flatten() == all[first] + rest.flatten());
    } else {
        let taken = all.subrange(first, end);
        let rest = all.subrange(end, all.len() as int);
        assert(all == skipped + taken + rest);
        vstd::seq_lib::lemma_flatten_concat(skipped, taken);
        vstd::seq_lib::lemma_flatten_concat(skipped + taken, rest);
        assert(all.flatten() == taken.flatten() + rest.flatten());
        assert(all.flatten().take(taken.flatten().len() as int) == taken.flatten());
    }
}

/// A write of several slices fails only with an error that a call gave, and if a
/// call that it asks for to make room gives one, with that.
pub proof fn vectored_fails_only_if_a_call_did<E>(
    s: WriterState,
    all: Seq<Seq<u8>>,
    replies: Seq<Result<usize, Failure<E>>>,
)
    ensures
        vectored_run(s, all, replies).step matches VectoredStep::Done(Err(e)) ==> exists|i: int|
            0 <= i < replies.len() && #[trigger] gave(replies[i], e),
        replies.len() > 0 && vectored_run(s, all, replies.drop_last()).step is Flush ==> forall|
            e: Error<E>,
        | #[trigger]
            gave(replies.last(), e) ==> vectored_run(s, all, replies).step
                == VectoredStep::<E>::Done(Err(e)),
    decreases replies.len(),
{
    if replies.len() > 0 {
        let fewer = replies.drop_last();
        vectored_fails_only_if_a_call_did(s, all, fewer);
        let before = vectored_run(s, all, fewer);
        if let VectoredStep::Done(Err(e)) = vectored_run(s, all, replies).step {
            if before.step is Flush {
                assert(gave(replies[replies.len() - 1], e));
            } else {
                let i = choose|i: int| 0 <= i < fewer.len() && #[trigger] gave(fewer[i], e);
                assert(gave(replies[i], e));
            }
        }
    }
}

/// With a wrapped writer that takes a byte whenever it is offered some, a write
/// of several slices does not fail, and has its room in no more calls than bytes
/// are buffered. It takes nothing only if there is nothing to take.
pub proof fn vectored_finishes<E>(
    s: WriterState,
    all: Seq<Seq<u8>>,
    replies: Seq<Result<usize, Failure<E>>>,
)
    requires
        s.valid(),
        s.capacity <= usize::MAX,
        all.len() <= usize::MAX,
        forall|i: int| 0 <= i < replies.len() ==> (#[trigger] replies[i]) is Ok && replies[i]->Ok_0 > 0,
    ensures
        ({
            let run = vectored_run(s, all, replies);
            &&& match run.step {
                VectoredStep::Flush(_) => run.state.buffer.len() + replies.len() <= s.buffer.len(),
                VectoredStep::Direct(first) => all[first as int].len() >= s.capacity,
                VectoredStep::Done(Ok(n)) => n == 0 ==> all.flatten().len() == 0,
                VectoredStep::Done(Err(_)) => false,
            }
            &&& replies.len() >= s.buffer.len() ==> run.step !is Flush
        }),
    decreases replies.len(),
{
    vectored_conserves(s, all, replies);
    let first = writer_state::first_full(all, 0);
    first_full_is_the_first(all, 0);
    if replies.len() == 0 {
        if first == all.len() {
            assert(all.subrange(0, first) == all);
        } else if !(all[first].len() > s.spare() && s.buffer.len() > 0) {
            lemma_vectored_takes_some::<E>(s, all, first);
        }
    } else {
        let fewer = replies.drop_last();
        assert forall|i: int| 0 <= i < fewer.len() implies (#[trigger] fewer[i]) is Ok
            && fewer[i]->Ok_0 > 0 by {
            assert(fewer[i] == replies[i]);
        }
        assert(replies.last() == replies[replies.len() - 1]);
        vectored_finishes(s, all, fewer);
        vectored_conserves(s, all, fewer);
        let before = vectored_run(s, all, fewer);
        if before.step is Flush {
            let (t, _) = writer_state::flush_after(before.state, replies.last());
            if t.buffer.len() == 0 {
                lemma_vectored_takes_some::<E>(t, all, first);
            }
        }
    }
}

/// A slice that is not empty and fits is taken.
proof fn lemma_vectored_takes_some<E>(s: WriterState, all: Seq<Seq<u8>>, first: int)
    requires
        s.valid(),
        s.capacity <= usize::MAX,
        0 <= first < all.len(),
        all[first].len() > 0,
        all[first].len() > s.spare() ==> s.buffer.len() == 0,
    ensures
        match writer_state::vectored_settled::<E>(s, all, first).1 {
            VectoredStep::Flush(_) => false,
            VectoredStep::Direct(_) => true,
            VectoredStep::Done(end) => end is Ok && end->Ok_0 > 0,
        },
{
    if all[first].len() < s.capacity {
        fitting_is_the_longest(all, first, s.spare());
        let end = writer_state::fitting(all, first, s.spare());
        fitting_is_the_longest(all, first + 1, s.spare() - all[first].len());
        let taken = all.subrange(first, end);
        assert(taken.first() == all[first]);
        assert(taken.flatten().len() == all[first].len() + taken.drop_first().flatten().len());
    }
}

/// A call is out exactly while a write of several slices asks for one, or if one
/// was out before that never came back and none was asked for since.
pub proof fn vectored_call_comes_back<E>(
    s: WriterState,
    all: Seq<Seq<u8>>,
    replies: Seq<Result<usize, Failure<E>>>,
)
    ensures
        vectored_run(s, all, replies).step !is Done ==> vectored_run(s, all, replies).state.panicked,
        vectored_run(s, all, replies).step is Done && !s.panicked ==> !vectored_run(
            s,
            all,
            replies,
        ).state.panicked,
    decreases replies.len(),
{
    if replies.len() > 0 {
        vectored_call_comes_back(s, all, replies.drop_last());
    }
}

/// An operation of a writer, with all that the wrapped writer answered to it.
pub enum Operation<E> {
    /// A write of these bytes, with the answers to the calls that made room,
    /// and the number of bytes that the wrapped writer took where it was asked
    /// to write the bytes itself.
    Write(Seq<u8>, Seq<Result<usize, Failure<E>>>, int),
    /// A write of several slices, with the same.
    WriteVectored(Seq<Seq<u8>>, Seq<Result<usize, Failure<E>>>, int),
    /// A flush.
    Flush(Seq<Result<usize, Failure<E>>>),
}

/// What came of a number of operations.
pub struct History {
    /// What the writer holds.
    pub state: WriterState,
    /// The bytes that the writer took, in order.
    pub taken: Seq<u8>,
    /// The bytes that the wrapped writer took, in order.
    pub sent: Seq<u8>,
}

/// One more operation.
pub open spec fn happen<E>(h: History, op: Operation<E>) -> History {
    match op {
        Operation::Write(data, replies, direct) => {
            let run = write_run(h.state, data, (), replies);
            match run.step {
                WriteStep::Direct => {
                    let part = data.take(direct);
                    History {
                        state: run.state.returned(),
                        taken: h.taken + part,
                        sent: h.sent + run.sent + part,
                    }
                },
                WriteStep::Done(Ok(_)) => History {
                    state: run.state,
                    taken: h.taken + data,
                    sent: h.sent + run.sent,
                },
                _ => History { state: run.state, taken: h.taken, sent: h.sent + run.sent },
            }
        },
        Operation::WriteVectored(all, replies, direct) => {
            let run = vectored_run(h.state, all, replies);
            match run.step {
                VectoredStep::Direct(first) => {
                    let part = all[first as int].take(direct);
                    History {
                        state: run.state.returned(),
                        taken: h.taken + part,
                        sent: h.sent + run.sent + part,
                    }
                },
                VectoredStep::Done(Ok(n)) => History {
                    state: run.state,
                    taken: h.taken + all.flatten().take(n as int),
                    sent: h.sent + run.sent,
                },
                _ => History { state: run.state, taken: h.taken, sent: h.sent + run.sent },
            }
        },
        Operation::Flush(replies) => {
            let run = flush_run(h.state, replies);
            History { state: run.state, taken: h.taken, sent: h.sent + run.sent }
        },
    }
}

/// A number of operations, one after the other.
pub open spec fn history<E>(s: WriterState, ops: Seq<Operation<E>>) -> History
    decreases ops.len(),
{
    if ops.len() == 0 {
        History { state: s, taken: Seq::empty(), sent: Seq::empty() }
    } else {
        happen(history(s, ops.drop_last()), ops.last())
    }
}

/// The wrapped writer took no more than it was offered, and the slices can be
/// counted.
pub open spec fn sound<E>(op: Operation<E>) -> bool {
    match op {
        Operation::Write(data, _, direct) => 0 <= direct <= data.len(),
        Operation::WriteVectored(all, _, direct) => {
            let first = writer_state::first_full(all, 0);
            &&& all.len() <= usize::MAX
            &&& first < all.len() ==> 0 <= direct <= all[first].len()
        },
        Operation::Flush(_) => true,
    }
}

/// One operation neither loses nor repeats nor reorders a byte: what the
/// wrapped writer has taken, followed by what is buffered, grows by exactly
/// what the writer takes.
pub proof fn operation_conserves<E>(h: History, op: Operation<E>)
    requires
        h.state.valid(),
        h.state.capacity <= usize::MAX,
        sound(op),
    ensures
        ({
            let now = happen(h, op);
            &&& now.state.valid()
            &&& now.state.capacity == h.state.capacity
            &&& h.taken.is_prefix_of(now.taken)
            &&& now.sent + now.state.buffer == h.sent + h.state.buffer + now.taken.skip(
                h.taken.len() as int,
            )
        }),
{
    let now = happen(h, op);
    match op {
        Operation::Write(data, replies, direct) => {
            write_conserves(h.state, data, (), replies);
            let run = write_run(h.state, data, (), replies);
            let part = match run.step {
                WriteStep::Direct => data.take(direct),
                WriteStep::Done(Ok(_)) => data,
                _ => Seq::empty(),
            };
            assert(now.taken == h.taken + part);
            assert(now.taken.skip(h.taken.len() as int) == part);
            assert(h.sent + (h.state.buffer + part) == h.sent + h.state.buffer + part);
            assert(now.sent + now.state.buffer == h.sent + h.state.buffer + part);
        },
        Operation::WriteVectored(all, replies, direct) => {
            vectored_conserves(h.state, all, replies);
            let run = vectored_run(h.state, all, replies);
            let part = match run.step {
                VectoredStep::Direct(first) => all[first as int].take(direct),
                VectoredStep::Done(Ok(n)) => all.flatten().take(n as int),
                _ => Seq::empty(),
            };
            assert(now.taken == h.taken + part);
            assert(now.taken.skip(h.taken.len() as int) == part);
            assert(h.sent + (h.state.buffer + part) == h.sent + h.state.buffer + part);
            assert(now.sent + now.state.buffer == h.sent + h.state.buffer + part);
        },
        Operation::Flush(replies) => {
            flush_conserves(h.state, replies);
            let part = Seq::<u8>::empty();
            assert(now.taken == h.taken + part);
            assert(now.taken.skip(h.taken.len() as int) == part);
            assert(now.sent + now.state.buffer == h.sent + h.state.buffer + part);
        },
    }
}

/// Whatever is written and flushed in whatever order, and whatever the wrapped
/// writer answers: the bytes that it took, followed by those still buffered,
/// are the bytes that were buffered at first, followed by those that the writer
/// took. Not one is lost, repeated or out of order.
pub proof fn history_conserves<E>(s: WriterState, ops: Seq<Operation<E>>)
    requires
        s.valid(),
        s.capacity <= usize::MAX,
        forall|i: int| 0 <= i < ops.len() ==> sound(#[trigger] ops[i]),
    ensures
        history(s, ops).state.valid(),
        history(s, ops).state.capacity == s.capacity,
        history(s, ops).sent + history(s, ops).state.buffer == s.buffer + history(s, ops).taken,
    decreases ops.len(),
{
    let h = history(s, ops);
    if ops.len() == 0 {
        assert(h.sent + h.state.buffer == s.buffer + h.taken);
    } else {
        let fewer = ops.drop_last();
        assert forall|i: int| 0 <= i < fewer.len() implies sound(#[trigger] fewer[i]) by {
            assert(fewer[i] == ops[i]);
        }
        history_conserves(s, fewer);
        let before = history(s, fewer);
        assert(ops.last() == ops[ops.len() - 1]);
        operation_conserves(before, ops.last());
        let part = h.taken.skip(before.taken.len() as int);
        assert(before.taken + part == h.taken);
        assert(s.buffer + before.taken + part == s.buffer + (before.taken + part));
    }
}

/// The operation is over: each call that it asked for was answered.
pub open spec fn over<E>(s: WriterState, op: Operation<E>) -> bool {
    match op {
        Operation::Write(data, replies, _) => write_run(s, data, (), replies).step !is Flush,
        Operation::WriteVectored(all, replies, _) => vectored_run(s, all, replies).step !is Flush,
        Operation::Flush(replies) => flush_run(s, replies).step !is Write,
    }
}

/// Each operation was over before the next.
pub open spec fn all_over<E>(s: WriterState, ops: Seq<Operation<E>>) -> bool
    decreases ops.len(),
{
    ops.len() == 0 || {
        &&& all_over(s, ops.drop_last())
        &&& over(history(s, ops.drop_last()).state, ops.last())
    }
}

/// Whatever is written and flushed in whatever order, and whether it went well
/// or not: if each call came back, no call is out.
pub proof fn no_call_is_out_if_each_came_back<E>(s: WriterState, ops: Seq<Operation<E>>)
    requires
        !s.panicked,
        all_over(s, ops),
    ensures
        !history(s, ops).state.panicked,
    decreases ops.len(),
{
    if ops.len() > 0 {
        no_call_is_out_if_each_came_back(s, ops.drop_last());
        let before = history(s, ops.drop_last()).state;
        match ops.last() {
            Operation::Write(data, replies, _) => {
                write_call_comes_back(before, data, (), replies);
            },
            Operation::WriteVectored(all, replies, _) => {
                vectored_call_comes_back(before, all, replies);
            },
            Operation::Flush(replies) => {
                flush_call_comes_back(before, replies);
            },
        }
    }
}

} // verus!
