//! What each call on a buffered reader does, said of the calls themselves: of
//! what goes into them and what comes out.
//!
//! A law speaks of any call with the arguments and the result that it is given.
//! Of a reader it looks at the bytes in its buffer, at how many of them came
//! from the wrapped reader and how many were given out.

use vstd::prelude::*;

use crate::bytes;
use crate::error::{Error, Failure};
use crate::reader_state;
use crate::reader_state::{ExactStep, ReadStep, ReaderState, SeekStep};
use crate::seek::SeekFrom;
use crate::stack_bufreader::StackBufReader;

verus! {

/// A reader is in order if no more bytes were given out than came in, no more
/// came in than the buffer holds, and the buffer is no larger than an array can
/// be. It has to meet no more than that.
pub proof fn a_reader_in_order<R: ?Sized, const N: usize>(r: &StackBufReader<R, N>)
    ensures
        r.wf() <==> {
            &&& 0 <= r@.pos
            &&& r@.pos <= r@.filled
            &&& r@.filled <= r@.storage.len()
            &&& r@.storage.len() == N
            &&& N <= isize::MAX
        },
{
}

/// A new reader has nothing buffered and nothing to take back, whatever the size
/// of its buffer, and gives back the reader that it was made of.
pub proof fn new_reader_is_empty<R, const N: usize>(
    reader: R,
    made: StackBufReader<R, N>,
    pending: &[u8],
    unwrapped: R,
)
    requires
        call_ensures(StackBufReader::<R, N>::new, (reader,), made),
        call_ensures(StackBufReader::<R, N>::buffer, (&made,), pending),
        call_ensures(StackBufReader::<R, N>::into_inner, (made,), unwrapped),
    ensures
        made.wf(),
        pending@.len() == 0,
        made@.pos == 0,
        made@.storage.len() == N,
        unwrapped == reader,
{
}

/// The wrapped reader is reached as it is, and what is done to it is not
/// forgotten. The buffer does not change by that.
pub proof fn wrapped_reader_is_reached<R: ?Sized, const N: usize>(
    r: &mut StackBufReader<R, N>,
    seen: &R,
    reached: &mut R,
    seen_after: &R,
)
    requires
        call_ensures(StackBufReader::<R, N>::get_ref, (&*old(r),), seen),
        call_ensures(StackBufReader::<R, N>::get_mut, (r,), reached),
        call_ensures(StackBufReader::<R, N>::get_ref, (&*final(r),), seen_after),
    ensures
        seen == &*old(reached),
        seen_after == &*final(reached),
        final(r)@ == old(r)@,
{
}

/// The buffer shows the bytes that came in and were not given out: between
/// those that were and what means nothing.
pub proof fn buffer_shows_what_is_pending<R: ?Sized, const N: usize>(
    r: &StackBufReader<R, N>,
    pending: &[u8],
    capacity: usize,
)
    requires
        r.wf(),
        call_ensures(StackBufReader::<R, N>::buffer, (r,), pending),
        call_ensures(StackBufReader::<R, N>::capacity, (r,), capacity),
    ensures
        pending@ == r@.pending(),
        r@.pos + pending@.len() == r@.filled,
        r@.storage.take(r@.pos) + pending@ + r@.storage.skip(r@.filled) == r@.storage,
        capacity == r@.storage.len(),
        pending@.len() <= capacity,
{
}

/// `fill_buf` shows what `buffer` shows, and asks for the buffer to be filled
/// exactly where that is nothing.
pub proof fn fill_buf_shows_the_buffer<R: ?Sized, const N: usize>(
    r: &StackBufReader<R, N>,
    pending: &[u8],
    shown: Option<&[u8]>,
)
    requires
        r.wf(),
        call_ensures(StackBufReader::<R, N>::buffer, (r,), pending),
        call_ensures(StackBufReader::<R, N>::fill_buf, (r,), shown),
    ensures
        match shown {
            Some(b) => b@ == pending@ && b@.len() > 0,
            None => pending@.len() == 0,
        },
{
}

/// After the buffer was discarded nothing is pending, and nothing can be taken
/// back.
pub proof fn discard_leaves_nothing<R: ?Sized, const N: usize>(
    r: &mut StackBufReader<R, N>,
    after: &mut StackBufReader<R, N>,
    amt: usize,
)
    requires
        old(r).wf(),
        call_ensures(StackBufReader::<R, N>::discard_buffer, (r,), ()),
        &*old(after) == &*final(r),
        call_ensures(StackBufReader::<R, N>::unconsume, (after, amt), ()),
    ensures
        final(r).wf(),
        final(r).inner() == old(r).inner(),
        final(r)@.pending().len() == 0,
        final(after)@.pending().len() == 0,
        final(r)@.storage == old(r)@.storage,
        final(r)@.pos == 0,
        final(r)@.filled == 0,
{
}

/// To consume drops as many bytes from the front of what is pending as it is
/// told, or all if there are fewer. They stay in the buffer and can be taken
/// back.
pub proof fn consume_drops_from_the_front<R: ?Sized, const N: usize>(
    r: &mut StackBufReader<R, N>,
    amt: usize,
)
    requires
        old(r).wf(),
        call_ensures(StackBufReader::<R, N>::consume, (r, amt), ()),
    ensures
        final(r).wf(),
        final(r).inner() == old(r).inner(),
        amt <= old(r)@.pending().len() ==> final(r)@.pending() == old(r)@.pending().skip(
            amt as int,
        ),
        amt >= old(r)@.pending().len() ==> final(r)@.pending().len() == 0,
        final(r)@.storage == old(r)@.storage,
        final(r)@.filled == old(r)@.filled,
        final(r)@.pos + final(r)@.pending().len() == old(r)@.filled,
{
}

/// To unconsume puts as many of the bytes given out last before what is pending
/// as it is told, or all that the buffer has if there are fewer.
pub proof fn unconsume_puts_back<R: ?Sized, const N: usize>(
    r: &mut StackBufReader<R, N>,
    amt: usize,
)
    requires
        old(r).wf(),
        call_ensures(StackBufReader::<R, N>::unconsume, (r, amt), ()),
    ensures
        final(r).wf(),
        final(r).inner() == old(r).inner(),
        amt <= old(r)@.pos ==> final(r)@.pending() == old(r)@.storage.subrange(
            old(r)@.pos - amt,
            old(r)@.pos,
        ) + old(r)@.pending(),
        amt >= old(r)@.pos ==> final(r)@.pending() == old(r)@.storage.take(old(r)@.pos)
            + old(r)@.pending(),
        final(r)@.storage == old(r)@.storage,
        final(r)@.filled == old(r)@.filled,
        final(r)@.pos + final(r)@.pending().len() == old(r)@.filled,
{
    let k: int = if amt <= old(r)@.pos {
        amt as int
    } else {
        old(r)@.pos
    };
    assert(final(r)@.pending() == old(r)@.storage.subrange(old(r)@.pos - k, old(r)@.pos) + old(
        r,
    )@.pending());
    assert(old(r)@.storage.subrange(0, old(r)@.pos) == old(r)@.storage.take(old(r)@.pos));
}

/// Bytes that were consumed and are taken back are pending again, and the reader
/// is as it was.
pub proof fn consumed_bytes_can_be_taken_back<R: ?Sized, const N: usize>(
    r: &mut StackBufReader<R, N>,
    after: &mut StackBufReader<R, N>,
    amt: usize,
)
    requires
        old(r).wf(),
        amt <= old(r)@.pending().len(),
        call_ensures(StackBufReader::<R, N>::consume, (r, amt), ()),
        &*old(after) == &*final(r),
        call_ensures(StackBufReader::<R, N>::unconsume, (after, amt), ()),
    ensures
        final(after)@ == old(r)@,
{
}

/// A destination is claimed from the buffer whole or not at all.
pub proof fn claim_is_all_or_nothing<R: ?Sized, const N: usize>(
    r: &mut StackBufReader<R, N>,
    dst: &mut [u8],
    claimed: bool,
)
    requires
        old(r).wf(),
        call_ensures(StackBufReader::<R, N>::consume_with, (r, dst), claimed),
    ensures
        final(r).wf(),
        final(r).inner() == old(r).inner(),
        final(dst)@.len() == old(dst)@.len(),
        claimed <==> old(dst)@.len() <= old(r)@.pending().len(),
        claimed ==> final(dst)@ + final(r)@.pending() == old(r)@.pending(),
        claimed ==> final(r)@.storage == old(r)@.storage && final(r)@.filled == old(r)@.filled,
        !claimed ==> final(dst)@ == old(dst)@ && final(r)@ == old(r)@,
{
}

/// The wrapped reader is given the whole buffer to fill, and what it leaves
/// there is what the buffer holds.
pub proof fn fill_offers_the_whole_buffer<R: ?Sized, const N: usize>(
    r: &mut StackBufReader<R, N>,
    parts: (&mut R, &mut [u8]),
)
    requires
        old(r).wf(),
        old(r)@.pending().len() == 0,
        call_ensures(StackBufReader::<R, N>::fill_parts, (r,), parts),
    ensures
        final(r).wf(),
        &*old(parts.0) == old(r).inner(),
        old(parts.1)@.len() == N,
        final(r).inner() == &*final(parts.0),
        final(r)@.storage == final(parts.1)@,
        final(r)@.pos == old(r)@.pos,
        final(r)@.filled == old(r)@.filled,
{
}

/// What the wrapped reader read into the buffer is pending, all of it and
/// nothing else, and is shown. If it failed, its error is handed on, and nothing
/// is pending. Nothing from before can be taken back.
pub proof fn fill_shows_what_was_read<R: ?Sized, E, const N: usize>(
    r: &mut StackBufReader<R, N>,
    reply: Result<usize, E>,
    shown: Result<&[u8], E>,
)
    requires
        old(r).wf(),
        old(r)@.pending().len() == 0,
        reply matches Ok(n) ==> n <= N,
        call_ensures(StackBufReader::<R, N>::fill_done::<E>, (r, reply), shown),
    ensures
        final(r).wf(),
        final(r).inner() == old(r).inner(),
        final(r)@.storage == old(r)@.storage,
        final(r)@.pos == 0,
        match (reply, shown) {
            (Ok(n), Ok(b)) => {
                &&& b@.len() == n
                &&& b@ == old(r)@.storage.take(n as int)
                &&& final(r)@.pending() == b@
            },
            (Err(e), Err(f)) => e == f && final(r)@.filled == 0,
            _ => false,
        },
{
}

/// A read with bytes in the buffer gives out the first of them, as many as there
/// is room for, says how many those are, and asks the wrapped reader for
/// nothing. Without any it changes nothing in the destination and asks for the
/// buffer to be filled, or for a read past the buffer if the destination is as
/// large as that.
pub proof fn read_gives_the_next_bytes<R: ?Sized, const N: usize>(
    r: &mut StackBufReader<R, N>,
    dst: &mut [u8],
    step: ReadStep,
)
    requires
        old(r).wf(),
        call_ensures(StackBufReader::<R, N>::read, (r, dst), step),
    ensures
        final(r).wf(),
        final(r).inner() == old(r).inner(),
        final(r)@.storage == old(r)@.storage,
        match step {
            ReadStep::Done(n) => {
                &&& old(r)@.pending().len() > 0
                &&& n <= old(dst)@.len()
                &&& n <= old(r)@.pending().len()
                &&& n == old(dst)@.len() || n == old(r)@.pending().len()
                &&& final(dst)@ == old(r)@.pending().take(n as int) + old(dst)@.skip(n as int)
                &&& final(r)@.pending() == old(r)@.pending().skip(n as int)
                &&& final(r)@.filled == old(r)@.filled
            },
            ReadStep::Fill => {
                &&& old(r)@.pending().len() == 0
                &&& old(dst)@.len() < N
                &&& final(dst)@ == old(dst)@
                &&& final(r)@ == old(r)@
            },
            ReadStep::Direct => {
                &&& old(r)@.pending().len() == 0
                &&& old(dst)@.len() >= N
                &&& final(dst)@ == old(dst)@
                &&& final(r)@.pos == 0
                &&& final(r)@.filled == 0
            },
        },
{
}

/// A read that had the buffer filled gives out the first of the bytes that came,
/// as many as there is room for, and says how many those are; the others are
/// pending. If the fill failed, the error is handed on, and the destination is
/// as it was.
pub proof fn read_after_a_fill_gives_what_came<R: ?Sized, E, const N: usize>(
    r: &mut StackBufReader<R, N>,
    dst: &mut [u8],
    reply: Result<usize, E>,
    read: Result<usize, E>,
)
    requires
        old(r).wf(),
        old(r)@.pending().len() == 0,
        reply matches Ok(n) ==> n <= N,
        call_ensures(StackBufReader::<R, N>::read_filled::<E>, (r, dst, reply), read),
    ensures
        final(r).wf(),
        final(r).inner() == old(r).inner(),
        final(r)@.storage == old(r)@.storage,
        match (reply, read) {
            (Ok(n), Ok(k)) => {
                &&& k <= n
                &&& k <= old(dst)@.len()
                &&& k == n || k == old(dst)@.len()
                &&& final(dst)@ == old(r)@.storage.take(k as int) + old(dst)@.skip(k as int)
                &&& final(r)@.pending() == old(r)@.storage.subrange(k as int, n as int)
                &&& final(r)@.pos == k
                &&& final(r)@.filled == n
            },
            (Err(e), Err(f)) => {
                &&& e == f
                &&& final(dst)@ == old(dst)@
                &&& final(r)@.pos == 0
                &&& final(r)@.filled == 0
            },
            _ => false,
        },
{
    if let Ok(n) = reply {
        let k = read->Ok_0 as int;
        let came = old(r)@.storage.subrange(0, n as int);
        assert(came.take(k) == old(r)@.storage.take(k));
    }
}

/// The rows of several vectors are their contents, in order.
pub proof fn rows_are_the_contents(bufs: Seq<Vec<u8>>)
    ensures
        bytes::rows(bufs).len() == bufs.len(),
        forall|i: int| 0 <= i < bufs.len() ==> #[trigger] bytes::rows(bufs)[i] == bufs[i]@,
        bytes::rows(bufs) == bufs.map_values(|v: Vec<u8>| v@),
{
}

/// A read into a row of vectors is a read into one destination that is as long
/// as all of them: it gives out as many bytes, to the first vector until that is
/// full, then to the next, and says how many. The vectors keep their lengths.
pub proof fn vectored_read_gives_the_next_bytes<R: ?Sized, const N: usize>(
    r: &mut StackBufReader<R, N>,
    bufs: &mut Vec<Vec<u8>>,
    step: ReadStep,
)
    requires
        old(r).wf(),
        old(bufs)@.map_values(|v: Vec<u8>| v@).flatten().len() <= usize::MAX,
        call_ensures(StackBufReader::<R, N>::read_vectored, (r, bufs), step),
    ensures
        final(r).wf(),
        final(r).inner() == old(r).inner(),
        final(r)@.storage == old(r)@.storage,
        final(bufs)@.len() == old(bufs)@.len(),
        forall|i: int|
            0 <= i < old(bufs)@.len() ==> (#[trigger] final(bufs)@[i])@.len() == old(
                bufs,
            )@[i]@.len(),
        ({
            let was = old(bufs)@.map_values(|v: Vec<u8>| v@).flatten();
            let is = final(bufs)@.map_values(|v: Vec<u8>| v@).flatten();
            match step {
                ReadStep::Done(n) => {
                    &&& old(r)@.pending().len() > 0
                    &&& n <= was.len()
                    &&& n <= old(r)@.pending().len()
                    &&& n == was.len() || n == old(r)@.pending().len()
                    &&& is == old(r)@.pending().take(n as int) + was.skip(n as int)
                    &&& final(r)@.pending() == old(r)@.pending().skip(n as int)
                    &&& final(r)@.filled == old(r)@.filled
                },
                ReadStep::Fill => {
                    &&& old(r)@.pending().len() == 0
                    &&& was.len() < N
                    &&& is == was
                    &&& final(r)@ == old(r)@
                },
                ReadStep::Direct => {
                    &&& old(r)@.pending().len() == 0
                    &&& was.len() >= N
                    &&& is == was
                    &&& final(r)@.pos == 0
                    &&& final(r)@.filled == 0
                },
            }
        }),
{
    rows_are_the_contents(old(bufs)@);
    rows_are_the_contents(final(bufs)@);
}

/// A read into a row of vectors that had the buffer filled gives out the first
/// of the bytes that came in the same way.
pub proof fn vectored_read_after_a_fill_gives_what_came<R: ?Sized, E, const N: usize>(
    r: &mut StackBufReader<R, N>,
    bufs: &mut Vec<Vec<u8>>,
    reply: Result<usize, E>,
    read: Result<usize, E>,
)
    requires
        old(r).wf(),
        old(r)@.pending().len() == 0,
        reply matches Ok(n) ==> n <= N,
        old(bufs)@.map_values(|v: Vec<u8>| v@).flatten().len() <= usize::MAX,
        call_ensures(StackBufReader::<R, N>::read_vectored_filled::<E>, (r, bufs, reply), read),
    ensures
        final(r).wf(),
        final(r).inner() == old(r).inner(),
        final(r)@.storage == old(r)@.storage,
        final(bufs)@.len() == old(bufs)@.len(),
        forall|i: int|
            0 <= i < old(bufs)@.len() ==> (#[trigger] final(bufs)@[i])@.len() == old(
                bufs,
            )@[i]@.len(),
        ({
            let was = old(bufs)@.map_values(|v: Vec<u8>| v@).flatten();
            let is = final(bufs)@.map_values(|v: Vec<u8>| v@).flatten();
            match (reply, read) {
                (Ok(n), Ok(k)) => {
                    &&& k <= n
                    &&& k <= was.len()
                    &&& k == n || k == was.len()
                    &&& is == old(r)@.storage.take(k as int) + was.skip(k as int)
                    &&& final(r)@.pending() == old(r)@.storage.subrange(k as int, n as int)
                    &&& final(r)@.pos == k
                    &&& final(r)@.filled == n
                },
                (Err(e), Err(f)) => {
                    &&& e == f
                    &&& is == was
                    &&& final(r)@.pos == 0
                    &&& final(r)@.filled == 0
                },
                _ => false,
            }
        }),
{
    rows_are_the_contents(old(bufs)@);
    rows_are_the_contents(final(bufs)@);
    if let Ok(n) = reply {
        let k = read->Ok_0 as int;
        let came = old(r)@.storage.subrange(0, n as int);
        assert(came.take(k) == old(r)@.storage.take(k));
    }
}

/// How an exact read into `out` goes on without a call, with `got` bytes there
/// and `ready` buffered in a buffer of `capacity` bytes. It takes the first of
/// them, as many as it still wants, into the destination, and leaves the others
/// pending. It succeeds if and only if the destination is full then. Otherwise
/// nothing is pending, and it asks for the buffer to be filled, or for a read
/// past the buffer if it wants as much as that holds; it says how much of the
/// destination is there.
pub open spec fn exact_goes_on<E>(
    ready: Seq<u8>,
    capacity: int,
    out: Seq<u8>,
    got: int,
    pending: Seq<u8>,
    now: Seq<u8>,
    step: ExactStep<E>,
) -> bool {
    let at: int = match step {
        ExactStep::Fill(at) => at as int,
        ExactStep::Direct(at) => at as int,
        ExactStep::Done(_) => out.len() as int,
    };
    &&& got <= at <= out.len()
    &&& at - got <= ready.len()
    &&& now == out.take(got) + ready.take(at - got) + out.skip(at)
    &&& pending == ready.skip(at - got)
    &&& match step {
        ExactStep::Fill(_) => {
            &&& at < out.len()
            &&& pending.len() == 0
            &&& out.len() - at < capacity
        },
        ExactStep::Direct(_) => {
            &&& at < out.len()
            &&& pending.len() == 0
            &&& out.len() - at >= capacity
        },
        ExactStep::Done(end) => end is Ok,
    }
}

/// That is how an exact read goes on.
proof fn lemma_exact_goes_on<E>(s: ReaderState, out: Seq<u8>, got: int)
    requires
        s.valid(),
        0 <= got <= out.len() <= usize::MAX,
    ensures
        ({
            let read = reader_state::exact_from::<E>(s, out, got);
            &&& exact_goes_on(
                s.pending(),
                s.storage.len() as int,
                out,
                got,
                read.state.pending(),
                read.out,
                read.step,
            )
            &&& read.step is Done <==> out.len() - got <= s.pending().len()
        }),
{
    let read = reader_state::exact_from::<E>(s, out, got);
    let k = read.got - got;
    assert(read.out == out.take(got) + s.pending().take(k) + out.skip(got + k));
    assert(read.state.pending() == s.pending().skip(k));
}

/// An exact read begins with what is pending, and needs no call if that is
/// enough. What it takes from the buffer can be taken back while the read past
/// the buffer is not asked for.
pub proof fn exact_read_begins_with_the_buffer<R: ?Sized, E, const N: usize>(
    r: &mut StackBufReader<R, N>,
    dst: &mut [u8],
    step: ExactStep<E>,
)
    requires
        old(r).wf(),
        call_ensures(StackBufReader::<R, N>::read_exact::<E>, (r, dst), step),
    ensures
        final(r).wf(),
        final(r).inner() == old(r).inner(),
        final(r)@.storage == old(r)@.storage,
        exact_goes_on(
            old(r)@.pending(),
            N as int,
            old(dst)@,
            0,
            final(r)@.pending(),
            final(dst)@,
            step,
        ),
        step is Done <==> old(dst)@.len() <= old(r)@.pending().len(),
        final(r)@.filled == if step is Direct {
            0
        } else {
            old(r)@.filled
        },
{
    assert(old(dst).len() == old(dst)@.len());
    lemma_exact_goes_on::<E>(old(r)@, old(dst)@, 0);
}

/// An exact read of which some bytes are there goes on with what is pending.
pub proof fn exact_read_goes_on_with_the_buffer<R: ?Sized, E, const N: usize>(
    r: &mut StackBufReader<R, N>,
    dst: &mut [u8],
    got: usize,
    step: ExactStep<E>,
)
    requires
        old(r).wf(),
        got <= old(dst)@.len(),
        call_ensures(StackBufReader::<R, N>::default_read_exact::<E>, (r, dst, got), step),
    ensures
        final(r).wf(),
        final(r).inner() == old(r).inner(),
        final(r)@.storage == old(r)@.storage,
        exact_goes_on(
            old(r)@.pending(),
            N as int,
            old(dst)@,
            got as int,
            final(r)@.pending(),
            final(dst)@,
            step,
        ),
        step is Done <==> old(dst)@.len() - got <= old(r)@.pending().len(),
        final(r)@.filled == if step is Direct {
            0
        } else {
            old(r)@.filled
        },
{
    assert(old(dst).len() == old(dst)@.len());
    lemma_exact_goes_on::<E>(old(r)@, old(dst)@, got as int);
}

/// An exact read whose call was answered with some bytes in the buffer goes on
/// with those. It does not fail.
pub proof fn exact_read_goes_on_after_a_fill<R: ?Sized, E, const N: usize>(
    r: &mut StackBufReader<R, N>,
    dst: &mut [u8],
    got: usize,
    n: usize,
    step: ExactStep<E>,
)
    requires
        old(r).wf(),
        old(r)@.pending().len() == 0,
        got < old(dst)@.len(),
        0 < n <= N,
        call_ensures(
            StackBufReader::<R, N>::read_exact_filled::<E>,
            (r, dst, got, Ok(n)),
            step,
        ),
    ensures
        final(r).wf(),
        final(r).inner() == old(r).inner(),
        final(r)@.storage == old(r)@.storage,
        exact_goes_on(
            old(r)@.storage.take(n as int),
            N as int,
            old(dst)@,
            got as int,
            final(r)@.pending(),
            final(dst)@,
            step,
        ),
        step is Done <==> old(dst)@.len() - got <= n,
        final(r)@.filled == if step is Direct {
            0
        } else {
            n as int
        },
{
    assert(old(dst).len() == old(dst)@.len());
    assert(old(r)@.storage.subrange(0, n as int) == old(r)@.storage.take(n as int));
    lemma_exact_goes_on::<E>(
        ReaderState { pos: 0, filled: n as int, ..old(r)@ },
        old(dst)@,
        got as int,
    );
}

/// An exact read whose call was answered with some bytes in the destination
/// itself counts exactly those. It does not fail, and succeeds if and only if
/// they were all that it wanted.
pub proof fn exact_read_goes_on_after_a_read_past_the_buffer<R: ?Sized, E, const N: usize>(
    r: &mut StackBufReader<R, N>,
    dst: &mut [u8],
    got: usize,
    n: usize,
    step: ExactStep<E>,
)
    requires
        old(r).wf(),
        old(r)@.pending().len() == 0,
        got < old(dst)@.len(),
        0 < n <= old(dst)@.len() - got,
        call_ensures(
            StackBufReader::<R, N>::read_exact_direct::<E>,
            (r, dst, got, Ok(n)),
            step,
        ),
    ensures
        final(r).wf(),
        final(r).inner() == old(r).inner(),
        final(r)@.storage == old(r)@.storage,
        final(r)@.pending().len() == 0,
        final(r)@.filled == if step is Direct {
            0
        } else {
            old(r)@.filled
        },
        final(dst)@ == old(dst)@,
        match step {
            ExactStep::Fill(at) => at == got + n < old(dst)@.len() && old(dst)@.len() - at < N,
            ExactStep::Direct(at) => at == got + n < old(dst)@.len() && old(dst)@.len() - at >= N,
            ExactStep::Done(end) => end is Ok && got + n == old(dst)@.len(),
        },
{
    assert(old(dst).len() == old(dst)@.len());
}

/// An exact read that wants bytes and is answered that there are none is over
/// with that call: it fails, as the input has ended too early. That holds
/// whether the buffer was to be filled or the destination, and however much was
/// read before.
pub proof fn exact_read_ends_with_the_input<R: ?Sized, E, const N: usize>(
    r: &mut StackBufReader<R, N>,
    dst: &mut [u8],
    got: usize,
    step: ExactStep<E>,
)
    requires
        old(r).wf(),
        old(r)@.pending().len() == 0,
        got < old(dst)@.len(),
        call_ensures(
            StackBufReader::<R, N>::read_exact_filled::<E>,
            (r, dst, got, Ok(0)),
            step,
        ) || call_ensures(
            StackBufReader::<R, N>::read_exact_direct::<E>,
            (r, dst, got, Ok(0)),
            step,
        ),
    ensures
        step == ExactStep::<E>::Done(Err(Error::UnexpectedEof)),
        final(dst)@ == old(dst)@,
        final(r).wf(),
        final(r).inner() == old(r).inner(),
        final(r)@.storage == old(r)@.storage,
        final(r)@.pending().len() == 0,
        call_ensures(
            StackBufReader::<R, N>::read_exact_filled::<E>,
            (r, dst, got, Ok(0)),
            step,
        ) ==> final(r)@.filled == 0,
        call_ensures(
            StackBufReader::<R, N>::read_exact_direct::<E>,
            (r, dst, got, Ok(0)),
            step,
        ) ==> final(r)@.filled == if step is Direct {
            0
        } else {
            old(r)@.filled
        },
{
}

/// An exact read whose call failed hands on the error of the call, or, if the
/// call was merely interrupted, asks for it again, with as much of the
/// destination there as before. Either way nothing has changed in the
/// destination.
pub proof fn exact_read_rides_over_interruptions_only<R: ?Sized, E, const N: usize>(
    r: &mut StackBufReader<R, N>,
    dst: &mut [u8],
    got: usize,
    failure: Failure<E>,
    step: ExactStep<E>,
)
    requires
        old(r).wf(),
        old(r)@.pending().len() == 0,
        got < old(dst)@.len(),
        call_ensures(
            StackBufReader::<R, N>::read_exact_filled::<E>,
            (r, dst, got, Err(failure)),
            step,
        ) || call_ensures(
            StackBufReader::<R, N>::read_exact_direct::<E>,
            (r, dst, got, Err(failure)),
            step,
        ),
    ensures
        final(dst)@ == old(dst)@,
        final(r).wf(),
        final(r).inner() == old(r).inner(),
        final(r)@.storage == old(r)@.storage,
        final(r)@.pending().len() == 0,
        call_ensures(
            StackBufReader::<R, N>::read_exact_filled::<E>,
            (r, dst, got, Err(failure)),
            step,
        ) ==> final(r)@.filled == 0,
        call_ensures(
            StackBufReader::<R, N>::read_exact_direct::<E>,
            (r, dst, got, Err(failure)),
            step,
        ) ==> final(r)@.filled == if step is Direct {
            0
        } else {
            old(r)@.filled
        },
        match step {
            ExactStep::Fill(at) => failure.interrupted && at == got && old(dst)@.len() - got < N,
            ExactStep::Direct(at) => failure.interrupted && at == got && old(dst)@.len() - got
                >= N,
            ExactStep::Done(end) => {
                &&& !failure.interrupted
                &&& end matches Err(e) && e == Error::Inner(failure.error)
            },
        },
{
}

/// To read to the end moves all that is pending behind what was read before, and
/// counts it. It can fail only for want of memory, only if something is pending,
/// and then changes nothing.
pub proof fn read_to_end_begins_with_the_buffer<R: ?Sized, E, const N: usize>(
    r: &mut StackBufReader<R, N>,
    out: &mut Vec<u8>,
    drained: Result<usize, Error<E>>,
)
    requires
        old(r).wf(),
        call_ensures(StackBufReader::<R, N>::read_to_end::<E>, (r, out), drained),
    ensures
        final(r).wf(),
        final(r).inner() == old(r).inner(),
        final(r)@.storage == old(r)@.storage,
        match drained {
            Ok(n) => {
                &&& final(out)@ == old(out)@ + old(r)@.pending()
                &&& final(out)@.len() == old(out)@.len() + n
                &&& final(r)@.pos == 0
                &&& final(r)@.filled == 0
            },
            Err(e) => {
                &&& e is OutOfMemory
                &&& old(r)@.pending().len() > 0
                &&& final(out)@ == old(out)@
                &&& final(r)@ == old(r)@
            },
        },
        old(r)@.pending().len() > 0 ==> exists|held: &mut Vec<u8>, answer: Result<
            (),
            std::collections::TryReserveError,
        >|
            {
                &&& held@ == old(out)@
                &&& #[trigger] call_ensures(
                    Vec::<u8>::try_reserve,
                    (held, old(r)@.pending().len() as usize),
                    answer,
                )
                &&& answer is Ok <==> drained is Ok
            },
{
    let n = old(r)@.pending().len() as usize;
    if n > 0 {
        assert(bytes::reserve_answers(old(out)@, n, drained is Ok));
    }
}

/// Whether room was reserved decides whether what is pending is moved.
pub proof fn room_decides_what_is_drained<R: ?Sized, E, const N: usize>(
    r: &mut StackBufReader<R, N>,
    out: &mut Vec<u8>,
    reserved: bool,
    drained: Result<usize, Error<E>>,
)
    requires
        old(r).wf(),
        call_ensures(StackBufReader::<R, N>::drain_reserved::<E>, (r, out, reserved), drained),
    ensures
        final(r).wf(),
        final(r).inner() == old(r).inner(),
        final(r)@.storage == old(r)@.storage,
        drained is Ok <==> reserved,
        match drained {
            Ok(n) => {
                &&& final(out)@ == old(out)@ + old(r)@.pending()
                &&& final(out)@.len() == old(out)@.len() + n
                &&& final(r)@.pos == 0
                &&& final(r)@.filled == 0
            },
            Err(e) => e is OutOfMemory && final(out)@ == old(out)@ && final(r)@ == old(r)@,
        },
{
}

/// A read to the end counts what came from the buffer and what the wrapped
/// reader appended, or hands on its error.
pub proof fn read_to_end_counts_both_parts<R: ?Sized, E, const N: usize>(
    drained: usize,
    reply: Result<usize, E>,
    read: Result<usize, Error<E>>,
)
    requires
        reply matches Ok(n) ==> drained + n <= usize::MAX,
        call_ensures(StackBufReader::<R, N>::read_to_end_done::<E>, (drained, reply), read),
    ensures
        match (reply, read) {
            (Ok(n), Ok(k)) => k - drained == n,
            (Err(e), Err(f)) => f == Error::Inner(e),
            _ => false,
        },
{
}

/// A seek from the start or the end is handed on as it is. One from the current
/// position accounts for the bytes by which the wrapped reader is ahead: in one
/// call, or, only where one cannot say it, in two, the first of which goes back
/// by just those.
pub proof fn seek_accounts_for_what_is_pending<R: ?Sized, const N: usize>(
    r: &StackBufReader<R, N>,
    target: SeekFrom,
    step: SeekStep,
)
    requires
        r.wf(),
        call_ensures(StackBufReader::<R, N>::seek, (r, target), step),
    ensures
        target is Start || target is End ==> step == SeekStep::Seek(target),
        target matches SeekFrom::Current(n) ==> match step {
            SeekStep::Seek(SeekFrom::Current(m)) => m + r@.pending().len() == n,
            SeekStep::Seek(_) => false,
            SeekStep::Rewind { back, on } => {
                &&& back + r@.pending().len() == 0
                &&& on == n
                &&& n - r@.pending().len() < i64::MIN
            },
        },
{
}

/// The first of two calls of a seek discards the buffer if it went well, and the
/// second goes where the seek was to go from there. If it failed, the error is
/// handed on, and the reader is as it was.
pub proof fn seek_goes_on_from_the_position<R: ?Sized, E, const N: usize>(
    r: &mut StackBufReader<R, N>,
    on: i64,
    reply: Result<u64, E>,
    step: Result<SeekStep, E>,
)
    requires
        old(r).wf(),
        call_ensures(StackBufReader::<R, N>::seek_rewound::<E>, (r, on, reply), step),
    ensures
        final(r).wf(),
        final(r).inner() == old(r).inner(),
        match (reply, step) {
            (Ok(_), Ok(next)) => {
                &&& next == SeekStep::Seek(SeekFrom::Current(on))
                &&& final(r)@.storage == old(r)@.storage
                &&& final(r)@.pos == 0
                &&& final(r)@.filled == 0
            },
            (Err(e), Err(f)) => e == f && final(r)@ == old(r)@,
            _ => false,
        },
{
}

/// A seek that went well leaves nothing in the buffer; one that failed leaves
/// the reader as it was. The answer is that of the wrapped reader.
pub proof fn seek_ends_with_the_answer<R: ?Sized, E, const N: usize>(
    r: &mut StackBufReader<R, N>,
    reply: Result<u64, E>,
    position: Result<u64, E>,
)
    requires
        old(r).wf(),
        call_ensures(StackBufReader::<R, N>::seek_done::<E>, (r, reply), position),
    ensures
        final(r).wf(),
        final(r).inner() == old(r).inner(),
        match (reply, position) {
            (Ok(at), Ok(there)) => {
                &&& at == there
                &&& final(r)@.storage == old(r)@.storage
                &&& final(r)@.pos == 0
                &&& final(r)@.filled == 0
            },
            (Err(e), Err(f)) => e == f && final(r)@ == old(r)@,
            _ => false,
        },
{
}

/// The position is as far behind that of the wrapped reader as bytes are
/// pending: it is where a seek by nothing would take the wrapped reader.
pub proof fn position_is_behind_by_what_is_pending<R: ?Sized, E, const N: usize>(
    r: &StackBufReader<R, N>,
    reply: Result<u64, E>,
    position: Result<u64, E>,
    step: SeekStep,
)
    requires
        r.wf(),
        reply matches Ok(inner) ==> r@.pending().len() <= inner,
        call_ensures(StackBufReader::<R, N>::stream_position::<E>, (r, reply), position),
        call_ensures(StackBufReader::<R, N>::seek, (r, SeekFrom::Current(0)), step),
    ensures
        match (reply, position) {
            (Ok(inner), Ok(at)) => {
                &&& at + r@.pending().len() == inner
                &&& step matches SeekStep::Seek(SeekFrom::Current(n)) && inner + n == at
            },
            (Err(e), Err(f)) => e == f,
            _ => false,
        },
{
}

/// A relative seek forwards by no more than is pending is to consume those
/// bytes, one backwards by no more than was given out of the buffer is to take
/// those back. Any other is a seek, and changes nothing before that.
pub proof fn relative_seek_moves_in_the_buffer_if_it_can<R: ?Sized, const N: usize>(
    r: &mut StackBufReader<R, N>,
    offset: i64,
    step: Option<SeekStep>,
    sought: SeekStep,
)
    requires
        old(r).wf(),
        call_ensures(StackBufReader::<R, N>::seek_relative, (r, offset), step),
        call_ensures(StackBufReader::<R, N>::seek, (&*old(r), SeekFrom::Current(offset)), sought),
    ensures
        final(r).wf(),
        final(r).inner() == old(r).inner(),
        final(r)@.storage == old(r)@.storage,
        final(r)@.filled == old(r)@.filled,
        offset >= 0 ==> (step is None <==> offset <= old(r)@.pending().len()),
        offset < 0 ==> (step is None <==> -offset <= old(r)@.pos),
        match step {
            None => {
                &&& final(r)@.pending().len() + offset == old(r)@.pending().len()
                &&& offset >= 0 ==> final(r)@.pending() == old(r)@.pending().skip(offset as int)
            },
            Some(s) => s == sought && final(r)@ == old(r)@,
        },
{
}

/// A relative seek within the buffer and the opposite one leave the reader as it
/// was.
pub proof fn relative_seeks_cancel<R: ?Sized, const N: usize>(
    r: &mut StackBufReader<R, N>,
    after: &mut StackBufReader<R, N>,
    offset: i64,
    there: Option<SeekStep>,
    back: Option<SeekStep>,
)
    requires
        old(r).wf(),
        offset > i64::MIN,
        call_ensures(StackBufReader::<R, N>::seek_relative, (r, offset), there),
        there is None,
        &*old(after) == &*final(r),
        call_ensures(StackBufReader::<R, N>::seek_relative, (after, (-offset) as i64), back),
    ensures
        back is None,
        final(after)@ == old(r)@,
{
}

} // verus!
