//! What holds of a buffered reader over any number of calls, whatever the
//! wrapped reader answers.

use vstd::prelude::*;

use crate::bytes;
use crate::error::{Error, Failure};
use crate::reader_state;
use crate::reader_state::{ExactRead, ExactStep, ReadStep, ReaderState, SeekStep};
use crate::seek;
use crate::seek::SeekFrom;

verus! {

/// Bytes that were consumed and are taken back are there again.
pub proof fn unconsume_undoes_consume(s: ReaderState, amt: int)
    requires
        s.valid(),
        0 <= amt <= s.pending().len(),
    ensures
        s.consumed(amt).unconsumed(amt) == s,
{
}

/// Bytes that were taken back and are consumed again are gone again.
pub proof fn consume_undoes_unconsume(s: ReaderState, amt: int)
    requires
        s.valid(),
        0 <= amt <= s.pos,
    ensures
        s.unconsumed(amt).consumed(amt) == s,
{
}

/// To consume bytes takes them off the front of what is pending, and to do so
/// twice is to do so once with both amounts.
pub proof fn consume_takes_from_the_front(s: ReaderState, a: int, b: int)
    requires
        s.valid(),
        0 <= a,
        0 <= b,
    ensures
        s.consumed(a).valid(),
        s.consumed(a).pending() == s.pending().skip(bytes::least(a, s.pending().len() as int)),
        s.consumed(a).consumed(b) == s.consumed(a + b),
{
}

/// What a call on the wrapped reader does: what it leaves in the space that it
/// was given, and what it returns.
pub struct Delivery<E> {
    /// What the space holds after the call.
    pub left: Seq<u8>,
    /// What the call returned.
    pub reply: Result<usize, Failure<E>>,
}

impl<E> Delivery<E> {
    /// It was given a space of `space` bytes, and read no more than that.
    pub open spec fn fits(self, space: int) -> bool {
        &&& self.left.len() == space
        &&& self.reply matches Ok(n) ==> n <= space
    }

    /// The bytes that the wrapped reader delivered.
    pub open spec fn delivered(self) -> Seq<u8> {
        match self.reply {
            Ok(n) => self.left.take(n as int),
            Err(_) => Seq::empty(),
        }
    }
}

/// The space that the wrapped reader is given in a read of `want` bytes.
pub open spec fn read_space(s: ReaderState, want: int) -> int {
    if s.read_step(want) is Direct {
        want
    } else {
        s.storage.len() as int
    }
}

/// What a reader has come to.
pub struct Reading {
    /// What the reader holds.
    pub state: ReaderState,
    /// The bytes that it gave out, in order.
    pub given: Seq<u8>,
    /// The bytes that the wrapped reader delivered, in order.
    pub delivered: Seq<u8>,
}

/// A whole read of `want` bytes, with this call on the wrapped reader if there
/// has to be one.
pub open spec fn read_whole<E>(s: ReaderState, want: int, d: Delivery<E>) -> Reading {
    match s.read_step(want) {
        ReadStep::Done(_) => Reading {
            state: s.read_state(want),
            given: s.pending().take(s.at_hand(want)),
            delivered: Seq::empty(),
        },
        ReadStep::Direct => Reading {
            state: s.read_state(want),
            given: d.delivered(),
            delivered: d.delivered(),
        },
        ReadStep::Fill => {
            let full = (ReaderState { storage: d.left, ..s }).answered(d.reply);
            let n = full.at_hand(want);
            Reading {
                state: full.consumed(n),
                given: full.pending().take(n),
                delivered: d.delivered(),
            }
        },
    }
}

/// A read neither loses nor repeats nor reorders a byte: what it gives out,
/// followed by what is then pending, is what was pending before, followed by
/// what the wrapped reader delivered. It gives out no more than was asked for,
/// and nothing only if nothing was pending and nothing was delivered. Where it
/// needs no call, the count that it answers with is that of the bytes that it
/// gives out.
pub proof fn read_conserves<E>(s: ReaderState, want: int, d: Delivery<E>)
    requires
        s.valid(),
        0 <= want <= usize::MAX,
        d.fits(read_space(s, want)),
    ensures
        ({
            let r = read_whole(s, want, d);
            &&& r.state.valid()
            &&& r.state.storage.len() == s.storage.len()
            &&& r.given + r.state.pending() == s.pending() + r.delivered
            &&& r.given.len() <= want
            &&& s.read_step(want) matches ReadStep::Done(n) ==> n == r.given.len() && r.state.pending()
                == s.pending().skip(n as int)
            &&& want > 0 && r.given.len() == 0 ==> s.pending().len() == 0 && r.delivered.len() == 0
        }),
{
    let r = read_whole(s, want, d);
    match s.read_step(want) {
        ReadStep::Done(_) => {
            let n = s.at_hand(want);
            assert(r.state.pending() == s.pending().skip(n));
            assert(r.given + r.state.pending() == s.pending() + r.delivered);
        },
        ReadStep::Direct => {
            assert(r.given + r.state.pending() == s.pending() + r.delivered);
        },
        ReadStep::Fill => {
            let full = (ReaderState { storage: d.left, ..s }).answered(d.reply);
            let n = full.at_hand(want);
            assert(full.pending() == d.delivered());
            assert(r.state.pending() == full.pending().skip(n));
            assert(r.given + r.state.pending() == s.pending() + r.delivered);
        },
    }
}

/// An exact read and the bytes that the wrapped reader delivered for it.
pub struct ExactRun<E> {
    /// The read.
    pub read: ExactRead<E>,
    /// The bytes that were delivered, in order.
    pub delivered: Seq<u8>,
}

/// The space that the wrapped reader is given next in an exact read.
pub open spec fn exact_space<E>(read: ExactRead<E>) -> int {
    if read.step is Direct {
        read.out.len() - read.got
    } else {
        read.state.storage.len() as int
    }
}

/// An exact read into `out`, with these calls on the wrapped reader. Calls
/// after the end are not made.
pub open spec fn exact_run<E>(s: ReaderState, out: Seq<u8>, ds: Seq<Delivery<E>>) -> ExactRun<E>
    decreases ds.len(),
{
    if ds.len() == 0 {
        ExactRun { read: reader_state::exact_from(s, out, 0), delivered: Seq::empty() }
    } else {
        let run = exact_run(s, out, ds.drop_last());
        let d = ds.last();
        let r = run.read;
        match r.step {
            ExactStep::Done(_) => run,
            ExactStep::Fill(_) => ExactRun {
                read: reader_state::exact_filled(
                    ReaderState { storage: d.left, ..r.state },
                    r.out,
                    r.got,
                    d.reply,
                ),
                delivered: run.delivered + d.delivered(),
            },
            ExactStep::Direct(_) => ExactRun {
                read: reader_state::exact_direct(
                    r.state,
                    r.out.take(r.got) + d.left,
                    r.got,
                    d.reply,
                ),
                delivered: run.delivered + d.delivered(),
            },
        }
    }
}

/// Each call had the space that the read gave it.
pub open spec fn exact_fits<E>(s: ReaderState, out: Seq<u8>, ds: Seq<Delivery<E>>) -> bool
    decreases ds.len(),
{
    ds.len() == 0 || {
        &&& exact_fits(s, out, ds.drop_last())
        &&& exact_run(s, out, ds.drop_last()).read.step !is Done ==> ds.last().fits(
            exact_space(exact_run(s, out, ds.drop_last()).read),
        )
    }
}

/// An exact read goes on from a state in which `got` bytes are there.
proof fn lemma_exact_from<E>(s: ReaderState, out: Seq<u8>, got: int)
    requires
        s.valid(),
        0 <= got <= out.len() <= usize::MAX,
    ensures
        ({
            let r = reader_state::exact_from::<E>(s, out, got);
            &&& r.state.valid()
            &&& r.state.storage.len() == s.storage.len()
            &&& r.out.len() == out.len()
            &&& got <= r.got <= out.len()
            &&& r.out.take(r.got) + r.state.pending() == out.take(got) + s.pending()
            &&& r.step == ExactStep::<E>::Done(Ok(())) <==> r.got == out.len()
            &&& match r.step {
                ExactStep::Fill(at) => at == r.got && r.state.pending().len() == 0,
                ExactStep::Direct(at) => at == r.got && r.state.pending().len() == 0,
                ExactStep::Done(end) => end is Ok,
            }
        }),
{
    let n = s.at_hand(out.len() - got);
    let r = reader_state::exact_from::<E>(s, out, got);
    assert(r.out.take(r.got) == out.take(got) + s.pending().take(n));
    assert(s.consumed(n).pending() == s.pending().skip(n));
    assert(s.pending().take(n) + s.pending().skip(n) == s.pending());
    if r.step is Direct {
        assert(r.state.pending() == s.pending().skip(n));
    }
    assert(r.out.take(r.got) + r.state.pending() == out.take(got) + s.pending());
}

/// How an exact read into `len` bytes stands between two calls, or at its end:
/// nothing is pending while it wants more, nor when it fails, and it succeeds
/// only with all bytes there.
spec fn exact_stands<E>(r: ExactRead<E>, capacity: nat, len: nat) -> bool {
    &&& r.state.valid()
    &&& r.state.storage.len() == capacity
    &&& r.out.len() == len
    &&& 0 <= r.got <= len
    &&& match r.step {
        ExactStep::Fill(at) => at == r.got < len && r.state.pending().len() == 0,
        ExactStep::Direct(at) => at == r.got < len && r.state.pending().len() == 0,
        ExactStep::Done(Ok(_)) => r.got == len,
        ExactStep::Done(Err(_)) => r.got < len && r.state.pending().len() == 0,
    }
}

/// A call that fills the buffer in an exact read adds what it delivers.
proof fn lemma_exact_filled<E>(b: ExactRead<E>, d: Delivery<E>)
    requires
        exact_stands(b, b.state.storage.len(), b.out.len()),
        b.out.len() <= usize::MAX,
        b.step is Fill,
        d.fits(b.state.storage.len() as int),
    ensures
        ({
            let r = reader_state::exact_filled(
                ReaderState { storage: d.left, ..b.state },
                b.out,
                b.got,
                d.reply,
            );
            &&& exact_stands(r, b.state.storage.len(), b.out.len())
            &&& r.out.take(r.got) + r.state.pending() == b.out.take(b.got) + d.delivered()
        }),
{
    let full = (ReaderState { storage: d.left, ..b.state }).answered(d.reply);
    assert(full.pending() == d.delivered());
    lemma_exact_from::<E>(full, b.out, b.got);
}

/// A call that goes past the buffer in an exact read adds what it delivers.
proof fn lemma_exact_direct<E>(b: ExactRead<E>, d: Delivery<E>)
    requires
        exact_stands(b, b.state.storage.len(), b.out.len()),
        b.out.len() <= usize::MAX,
        b.step is Direct,
        d.fits(b.out.len() - b.got),
    ensures
        ({
            let r = reader_state::exact_direct(
                b.state,
                b.out.take(b.got) + d.left,
                b.got,
                d.reply,
            );
            &&& exact_stands(r, b.state.storage.len(), b.out.len())
            &&& r.out.take(r.got) + r.state.pending() == b.out.take(b.got) + d.delivered()
        }),
{
    let now = b.out.take(b.got) + d.left;
    let more = d.delivered().len() as int;
    assert(now.take(b.got + more) == b.out.take(b.got) + d.delivered());
    assert(now.take(b.got + more) + b.state.pending() == now.take(b.got + more));
    lemma_exact_from::<E>(b.state, now, b.got + more);
}

/// What an exact read has read, followed by what is then pending, is what was
/// pending before, followed by what was delivered.
proof fn lemma_exact_conserves<E>(s: ReaderState, out: Seq<u8>, ds: Seq<Delivery<E>>)
    requires
        s.valid(),
        out.len() <= usize::MAX,
        exact_fits(s, out, ds),
    ensures
        ({
            let run = exact_run(s, out, ds);
            let r = run.read;
            &&& exact_stands(r, s.storage.len(), out.len())
            &&& r.out.take(r.got) + r.state.pending() == s.pending() + run.delivered
        }),
    decreases ds.len(),
{
    let run = exact_run(s, out, ds);
    if ds.len() == 0 {
        lemma_exact_from::<E>(s, out, 0);
        assert(out.take(0) + s.pending() == s.pending() + run.delivered);
    } else {
        lemma_exact_conserves(s, out, ds.drop_last());
        let before = exact_run(s, out, ds.drop_last());
        let b = before.read;
        let d = ds.last();
        if b.step !is Done {
            assert(b.out.take(b.got) + b.state.pending() == b.out.take(b.got));
            assert((s.pending() + before.delivered) + d.delivered() == s.pending()
                + run.delivered);
            if b.step is Fill {
                lemma_exact_filled(b, d);
            } else {
                lemma_exact_direct(b, d);
            }
        }
    }
}

/// An exact read neither loses nor repeats nor reorders a byte: what it has
/// read, followed by what is then pending, is what was pending before, followed
/// by what the wrapped reader delivered. So a read that succeeds has filled the
/// destination with the next bytes, and one that meets the end of the input has
/// read all there was, and it was too little.
pub proof fn exact_conserves<E>(s: ReaderState, out: Seq<u8>, ds: Seq<Delivery<E>>)
    requires
        s.valid(),
        out.len() <= usize::MAX,
        exact_fits(s, out, ds),
    ensures
        ({
            let run = exact_run(s, out, ds);
            let r = run.read;
            &&& r.state.valid()
            &&& r.state.storage.len() == s.storage.len()
            &&& r.out.len() == out.len()
            &&& 0 <= r.got <= out.len()
            &&& r.out.take(r.got) + r.state.pending() == s.pending() + run.delivered
            &&& match r.step {
                ExactStep::Fill(at) => at == r.got < out.len() && r.state.pending().len() == 0,
                ExactStep::Direct(at) => at == r.got < out.len() && r.state.pending().len() == 0,
                ExactStep::Done(Ok(_)) => r.out == (s.pending() + run.delivered).take(
                    out.len() as int,
                ),
                ExactStep::Done(Err(_)) => r.got < out.len() && r.out.take(r.got) == s.pending()
                    + run.delivered,
            }
        }),
{
    let run = exact_run(s, out, ds);
    let r = run.read;
    lemma_exact_conserves(s, out, ds);
    if r.state.pending().len() == 0 {
        assert(r.out.take(r.got) + r.state.pending() == r.out.take(r.got));
    }
    if r.got == out.len() {
        assert(r.out.take(r.got) == r.out);
        assert((s.pending() + run.delivered).take(out.len() as int) == r.out);
    }
}

/// The error `e` is what this answer of the wrapped reader gave: its own error,
/// unless it was merely interrupted, or that the input has ended.
pub open spec fn gave<E>(reply: Result<usize, Failure<E>>, e: Error<E>) -> bool {
    match reply {
        Ok(n) => n == 0 && e is UnexpectedEof,
        Err(failure) => !failure.interrupted && e == Error::Inner(failure.error),
    }
}

/// An exact read fails only with an error that a call gave. If a call that it
/// asks for gives one, be it that the input has ended, the read is over with
/// that call and fails with that; if a call is merely interrupted, it goes on
/// with as much of the destination there as before.
pub proof fn exact_fails_only_if_a_call_did<E>(
    s: ReaderState,
    out: Seq<u8>,
    ds: Seq<Delivery<E>>,
)
    requires
        s.valid(),
        out.len() <= usize::MAX,
        exact_fits(s, out, ds),
    ensures
        exact_run(s, out, ds).read.step matches ExactStep::Done(Err(e)) ==> exists|i: int|
            0 <= i < ds.len() && gave((#[trigger] ds[i]).reply, e),
        ds.len() > 0 && exact_run(s, out, ds.drop_last()).read.step !is Done ==> {
            &&& forall|e: Error<E>| #[trigger]
                gave(ds.last().reply, e) ==> exact_run(s, out, ds).read.step
                    == ExactStep::<E>::Done(Err(e))
            &&& ds.last().reply matches Err(failure) ==> failure.interrupted ==> exact_run(
                s,
                out,
                ds,
            ).read.step !is Done && exact_run(s, out, ds).read.got == exact_run(
                s,
                out,
                ds.drop_last(),
            ).read.got
        },
    decreases ds.len(),
{
    if ds.len() == 0 {
        lemma_exact_from::<E>(s, out, 0);
    } else {
        let fewer = ds.drop_last();
        exact_fails_only_if_a_call_did(s, out, fewer);
        lemma_exact_conserves(s, out, fewer);
        let b = exact_run(s, out, fewer).read;
        let d = ds.last();
        if b.step !is Done {
            lemma_exact_answered(b, d);
            if let ExactStep::Done(Err(e)) = exact_run(s, out, ds).read.step {
                assert(gave(ds[ds.len() - 1].reply, e));
            }
        } else if let ExactStep::Done(Err(e)) = b.step {
            let i = choose|i: int| 0 <= i < fewer.len() && gave((#[trigger] fewer[i]).reply, e);
            assert(gave(ds[i].reply, e));
        }
    }
}

/// What one answer comes to in an exact read.
proof fn lemma_exact_answered<E>(b: ExactRead<E>, d: Delivery<E>)
    requires
        exact_stands(b, b.state.storage.len(), b.out.len()),
        b.out.len() <= usize::MAX,
        b.step !is Done,
        d.fits(exact_space(b)),
    ensures
        ({
            let r = if b.step is Fill {
                reader_state::exact_filled(
                    ReaderState { storage: d.left, ..b.state },
                    b.out,
                    b.got,
                    d.reply,
                )
            } else {
                reader_state::exact_direct(b.state, b.out.take(b.got) + d.left, b.got, d.reply)
            };
            &&& r.step matches ExactStep::Done(Err(e)) ==> gave(d.reply, e)
            &&& forall|e: Error<E>| #[trigger]
                gave(d.reply, e) ==> r.step == ExactStep::<E>::Done(Err(e))
            &&& d.reply matches Err(failure) ==> failure.interrupted ==> r.step !is Done && r.got
                == b.got
        }),
{
    if b.step is Fill {
        let full = (ReaderState { storage: d.left, ..b.state }).answered(d.reply);
        lemma_exact_from::<E>(full, b.out, b.got);
    } else {
        let now = b.out.take(b.got) + d.left;
        lemma_exact_from::<E>(b.state, now, b.got + d.delivered().len());
    }
}

/// A wrapped reader that delivers a byte whenever it is asked ends an exact
/// read well, in no more calls than bytes are wanted.
pub proof fn exact_finishes<E>(s: ReaderState, out: Seq<u8>, ds: Seq<Delivery<E>>)
    requires
        s.valid(),
        out.len() <= usize::MAX,
        exact_fits(s, out, ds),
        forall|i: int| 0 <= i < ds.len() ==> (#[trigger] ds[i]).reply is Ok && ds[i].reply->Ok_0 > 0,
    ensures
        exact_run(s, out, ds).read.step == ExactStep::<E>::Done(Ok(())) || (exact_run(
            s,
            out,
            ds,
        ).read.step !is Done && exact_run(s, out, ds).read.got >= ds.len()),
        ds.len() >= out.len() ==> exact_run(s, out, ds).read.step == ExactStep::<E>::Done(Ok(())),
    decreases ds.len(),
{
    exact_conserves(s, out, ds);
    if ds.len() == 0 {
        lemma_exact_from::<E>(s, out, 0);
    } else {
        let fewer = ds.drop_last();
        assert forall|i: int| 0 <= i < fewer.len() implies (#[trigger] fewer[i]).reply is Ok
            && fewer[i].reply->Ok_0 > 0 by {
            assert(fewer[i] == ds[i]);
        }
        let d = ds.last();
        assert(d == ds[ds.len() - 1]);
        exact_finishes(s, out, fewer);
        exact_conserves(s, out, fewer);
        let b = exact_run(s, out, fewer).read;
        match b.step {
            ExactStep::Done(_) => {},
            ExactStep::Fill(_) => {
                let full = (ReaderState { storage: d.left, ..b.state }).answered(d.reply);
                lemma_exact_from::<E>(full, b.out, b.got);
            },
            ExactStep::Direct(_) => {
                let now = b.out.take(b.got) + d.left;
                lemma_exact_from::<E>(b.state, now, b.got + d.reply->Ok_0);
            },
        }
    }
}

/// What a caller asks of a reader, with all that the wrapped reader answers.
pub enum Request<E> {
    /// A read of so many bytes.
    Read(int, Delivery<E>),
    /// A read into a row of vectors that hold these bytes before.
    ReadVectored(Seq<Seq<u8>>, Delivery<E>),
    /// An exact read into this destination.
    Exact(Seq<u8>, Seq<Delivery<E>>),
    /// A read of all that is left, for which the wrapped reader has these bytes.
    ToEnd(Seq<u8>),
    /// An empty buffer is filled.
    Fill(Delivery<E>),
    /// The caller has used so many of the bytes that are pending.
    Consume(int),
}

/// The request can be made of a reader in this state.
pub open spec fn possible<E>(s: ReaderState, request: Request<E>) -> bool {
    match request {
        Request::Read(want, d) => 0 <= want <= usize::MAX && d.fits(read_space(s, want)),
        Request::ReadVectored(rows, d) => {
            let want = rows.flatten().len() as int;
            want <= usize::MAX && d.fits(read_space(s, want))
        },
        Request::Exact(out, ds) => out.len() <= usize::MAX && exact_fits(s, out, ds),
        Request::ToEnd(_) => true,
        Request::Fill(d) => s.pending().len() == 0 && d.fits(s.storage.len() as int),
        Request::Consume(n) => 0 <= n <= s.pending().len(),
    }
}

/// What one request comes to.
pub open spec fn serve<E>(s: ReaderState, request: Request<E>) -> Reading {
    match request {
        Request::Read(want, d) => read_whole(s, want, d),
        Request::ReadVectored(rows, d) => read_whole(s, rows.flatten().len() as int, d),
        Request::Exact(out, ds) => {
            let run = exact_run(s, out, ds);
            Reading {
                state: run.read.state,
                given: run.read.out.take(run.read.got),
                delivered: run.delivered,
            }
        },
        Request::ToEnd(rest) => Reading {
            state: s.discarded(),
            given: s.pending() + rest,
            delivered: rest,
        },
        Request::Fill(d) => Reading {
            state: (ReaderState { storage: d.left, ..s }).answered(d.reply),
            given: Seq::empty(),
            delivered: d.delivered(),
        },
        Request::Consume(n) => Reading {
            state: s.consumed(n),
            given: s.pending().take(n),
            delivered: Seq::empty(),
        },
    }
}

/// One request neither loses nor repeats nor reorders a byte: what is given
/// out, followed by what is then pending, is what was pending before, followed
/// by what the wrapped reader delivered.
pub proof fn serving_conserves<E>(s: ReaderState, request: Request<E>)
    requires
        s.valid(),
        possible(s, request),
    ensures
        serve(s, request).state.valid(),
        serve(s, request).state.storage.len() == s.storage.len(),
        serve(s, request).given + serve(s, request).state.pending() == s.pending() + serve(
            s,
            request,
        ).delivered,
{
    let now = serve(s, request);
    match request {
        Request::Read(want, d) => {
            read_conserves(s, want, d);
        },
        Request::ReadVectored(rows, d) => {
            read_conserves(s, rows.flatten().len() as int, d);
        },
        Request::Exact(out, ds) => {
            exact_conserves(s, out, ds);
        },
        Request::ToEnd(_) => {
            assert(now.given + now.state.pending() == s.pending() + now.delivered);
        },
        Request::Fill(d) => {
            assert(now.state.pending() == d.delivered());
            assert(now.given + now.state.pending() == s.pending() + now.delivered);
        },
        Request::Consume(n) => {
            assert(now.state.pending() == s.pending().skip(n));
            assert(now.given + now.state.pending() == s.pending() + now.delivered);
        },
    }
}

/// A number of requests, one after the other.
pub open spec fn reading<E>(s: ReaderState, requests: Seq<Request<E>>) -> Reading
    decreases requests.len(),
{
    if requests.len() == 0 {
        Reading { state: s, given: Seq::empty(), delivered: Seq::empty() }
    } else {
        let before = reading(s, requests.drop_last());
        let now = serve(before.state, requests.last());
        Reading {
            state: now.state,
            given: before.given + now.given,
            delivered: before.delivered + now.delivered,
        }
    }
}

/// Each request could be made when it was made.
pub open spec fn all_possible<E>(s: ReaderState, requests: Seq<Request<E>>) -> bool
    decreases requests.len(),
{
    requests.len() == 0 || {
        &&& all_possible(s, requests.drop_last())
        &&& possible(reading(s, requests.drop_last()).state, requests.last())
    }
}

/// Whatever is read in whatever way and order, and whatever the wrapped reader
/// answers: the bytes given out, followed by those pending, are the bytes that
/// were pending at first, followed by those that the wrapped reader delivered.
/// Not one is lost, repeated or out of order.
pub proof fn reading_conserves<E>(s: ReaderState, requests: Seq<Request<E>>)
    requires
        s.valid(),
        all_possible(s, requests),
    ensures
        reading(s, requests).state.valid(),
        reading(s, requests).state.storage.len() == s.storage.len(),
        reading(s, requests).given + reading(s, requests).state.pending() == s.pending() + reading(
            s,
            requests,
        ).delivered,
    decreases requests.len(),
{
    let all = reading(s, requests);
    if requests.len() == 0 {
        assert(all.given + all.state.pending() == s.pending() + all.delivered);
    } else {
        reading_conserves(s, requests.drop_last());
        let before = reading(s, requests.drop_last());
        let t = before.state;
        let now = serve(t, requests.last());
        serving_conserves(t, requests.last());
        assert(all.given + all.state.pending() == before.given + (now.given
            + now.state.pending()));
        assert(before.given + (t.pending() + now.delivered) == (before.given + t.pending())
            + now.delivered);
        assert((s.pending() + before.delivered) + now.delivered == s.pending() + all.delivered);
    }
}

/// The position in the stream, where the wrapped reader is at `inner`: it is as
/// far ahead as bytes are pending.
pub open spec fn position(s: ReaderState, inner: int) -> int {
    inner - s.pending().len()
}

/// A seek takes the wrapped reader to the position that the target names, seen
/// from the position in the stream. Where it takes two calls, the first takes
/// the wrapped reader to the position in the stream, which is where it is left
/// if the second fails.
pub proof fn seek_lands(s: ReaderState, target: SeekFrom, inner: int, end: int)
    requires
        s.valid(),
        s.storage.len() <= isize::MAX,
    ensures
        match s.seek_step(target) {
            SeekStep::Seek(t) => seek::landing(t, inner, end) == seek::landing(
                target,
                position(s, inner),
                end,
            ),
            SeekStep::Rewind { back, on } => {
                let there = seek::landing(SeekFrom::Current(back), inner, end);
                &&& there == position(s, inner)
                &&& seek::landing(SeekFrom::Current(on), there, end) == seek::landing(
                    target,
                    position(s, inner),
                    end,
                )
            },
        },
        position(s.discarded(), inner) == inner,
{
}

/// Two calls are needed only where one would have to move by more than an
/// `i64` can say.
pub proof fn seek_takes_two_calls_only_if_it_must(s: ReaderState, target: SeekFrom)
    requires
        s.valid(),
    ensures
        s.seek_step(target) is Rewind <==> (target matches SeekFrom::Current(n) && n
            - s.pending().len() < i64::MIN),
{
}

/// The position in the stream is where a seek by nothing would take the wrapped
/// reader.
pub proof fn stream_position_is_a_seek_by_nothing(s: ReaderState, inner: int, end: int)
    requires
        s.valid(),
        s.storage.len() <= isize::MAX,
    ensures
        s.seek_step(SeekFrom::Current(0)) matches SeekStep::Seek(t) && seek::landing(t, inner, end)
            == inner - s.pending().len(),
{
}

/// A relative seek within the buffer moves the position by the offset, leaves
/// the wrapped reader where it is and the buffered bytes as they are, and the
/// opposite one takes it back.
pub proof fn seek_within_the_buffer(s: ReaderState, offset: int, inner: int)
    requires
        s.valid(),
        s.within(offset),
    ensures
        ({
            let t = ReaderState { pos: s.pos + offset, ..s };
            &&& t.valid()
            &&& position(t, inner) == position(s, inner) + offset
            &&& t.storage.take(t.filled) == s.storage.take(s.filled)
            &&& t.within(-offset)
            &&& s == (ReaderState { pos: t.pos - offset, ..t })
        }),
{
}

} // verus!
