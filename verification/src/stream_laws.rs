//! What holds of a buffered reader whose wrapped reader reads a stream: any mix
//! of reads and seeks finds what the stream holds at its position.

use vstd::prelude::*;

use crate::bytes;
use crate::reader_laws;
use crate::reader_laws::{Delivery, Request};
use crate::reader_state;
use crate::reader_state::{ExactStep, ReadStep, ReaderState, SeekStep};
use crate::seek;
use crate::seek::SeekFrom;

verus! {

/// The stream holds `part` from position `at` on. Nothing is held everywhere,
/// even behind the end.
pub open spec fn holds(stream: Seq<u8>, at: int, part: Seq<u8>) -> bool {
    part.len() == 0 || {
        &&& 0 <= at
        &&& at + part.len() <= stream.len()
        &&& part == stream.subrange(at, at + part.len())
    }
}

/// The buffered bytes, given out or not, are those that the stream holds right
/// before the position `inner` of the wrapped reader.
pub open spec fn mirrors(s: ReaderState, stream: Seq<u8>, inner: int) -> bool {
    &&& s.valid()
    &&& s.filled <= inner
    &&& holds(stream, inner - s.filled, s.storage.take(s.filled))
}

/// What is pending is what the stream holds from the position of the reader to
/// that of the wrapped reader.
pub proof fn pending_is_in_the_stream(s: ReaderState, stream: Seq<u8>, inner: int)
    requires
        mirrors(s, stream, inner),
    ensures
        0 <= reader_laws::position(s, inner) <= inner,
        holds(stream, reader_laws::position(s, inner), s.pending()),
        inner <= stream.len() ==> s.pending() == stream.subrange(
            reader_laws::position(s, inner),
            inner,
        ),
{
    let at = reader_laws::position(s, inner);
    let window = s.storage.take(s.filled);
    if s.pending().len() > 0 {
        assert(window.len() == s.filled);
        assert forall|i: int| 0 <= i < s.pending().len() implies s.pending()[i] == stream[at
            + i] by {
            assert(s.pending()[i] == window[s.pos + i]);
        }
        assert(s.pending() == stream.subrange(at, inner));
    }
}

/// A call that fills the buffer with what the stream holds next makes the
/// buffer mirror the stream behind those bytes. One that fails leaves the buffer
/// empty, and it mirrors the stream where the wrapped reader was.
pub proof fn fill_keeps<T>(
    s: ReaderState,
    stream: Seq<u8>,
    inner: int,
    reply: Result<usize, T>,
)
    requires
        0 <= inner,
        reply matches Ok(n) ==> n <= s.storage.len() && holds(
            stream,
            inner,
            s.storage.take(n as int),
        ),
    ensures
        match reply {
            Ok(n) => mirrors(s.answered(reply), stream, inner + n),
            Err(_) => mirrors(s.answered(reply), stream, inner),
        },
{
}

/// Without data the buffer mirrors the stream wherever the wrapped reader is:
/// so a seek that discards it may take the wrapped reader anywhere.
pub proof fn discard_keeps(s: ReaderState, stream: Seq<u8>, inner: int)
    requires
        s.valid(),
        0 <= inner,
    ensures
        mirrors(s.discarded(), stream, inner),
        reader_laws::position(s.discarded(), inner) == inner,
{
}

/// To consume bytes keeps what is buffered, and moves the position on.
pub proof fn consume_keeps(s: ReaderState, stream: Seq<u8>, inner: int, amt: int)
    requires
        mirrors(s, stream, inner),
        0 <= amt,
    ensures
        mirrors(s.consumed(amt), stream, inner),
        reader_laws::position(s.consumed(amt), inner) == reader_laws::position(s, inner)
            + s.at_hand(amt),
{
}

/// To take bytes back keeps what is buffered, and moves the position back.
pub proof fn unconsume_keeps(s: ReaderState, stream: Seq<u8>, inner: int, amt: int)
    requires
        mirrors(s, stream, inner),
        0 <= amt,
    ensures
        mirrors(s.unconsumed(amt), stream, inner),
        reader_laws::position(s.unconsumed(amt), inner) == reader_laws::position(s, inner)
            - bytes::least(amt, s.pos),
{
}

/// A relative seek within the buffer keeps what is buffered, and moves the
/// position by the offset.
pub proof fn seek_within_keeps(s: ReaderState, stream: Seq<u8>, inner: int, offset: int)
    requires
        mirrors(s, stream, inner),
        s.within(offset),
    ensures
        mirrors(ReaderState { pos: s.pos + offset, ..s }, stream, inner),
        reader_laws::position(ReaderState { pos: s.pos + offset, ..s }, inner)
            == reader_laws::position(s, inner) + offset,
{
    reader_laws::seek_within_the_buffer(s, offset, inner);
}

/// A part of what the stream holds is held as well.
proof fn lemma_holds_prefix(stream: Seq<u8>, at: int, a: Seq<u8>, b: Seq<u8>)
    requires
        holds(stream, at, a + b),
    ensures
        holds(stream, at, a),
        holds(stream, at + a.len(), b),
{
    if (a + b).len() > 0 {
        assert(a == (a + b).take(a.len() as int));
        assert(b == (a + b).skip(a.len() as int));
        if a.len() > 0 {
            assert(a == stream.subrange(at, at + a.len()));
        }
        if b.len() > 0 {
            assert(b == stream.subrange(at + a.len(), at + a.len() + b.len()));
        }
    }
}

/// What the stream holds in two parts it holds as a whole.
proof fn lemma_holds_both(stream: Seq<u8>, at: int, a: Seq<u8>, b: Seq<u8>)
    requires
        holds(stream, at, a),
        holds(stream, at + a.len(), b),
    ensures
        holds(stream, at, a + b),
{
    if a.len() == 0 {
        assert(a + b == b);
    } else if b.len() == 0 {
        assert(a + b == a);
    } else {
        assert(a + b == stream.subrange(at, at + (a + b).len()));
    }
}

/// A whole read keeps the mirror.
proof fn lemma_read_keeps<E>(
    s: ReaderState,
    stream: Seq<u8>,
    inner: int,
    want: int,
    d: Delivery<E>,
)
    requires
        mirrors(s, stream, inner),
        0 <= want <= usize::MAX,
        d.fits(reader_laws::read_space(s, want)),
        holds(stream, inner, reader_laws::read_whole(s, want, d).delivered),
    ensures
        ({
            let r = reader_laws::read_whole(s, want, d);
            mirrors(r.state, stream, inner + r.delivered.len())
        }),
{
    match s.read_step(want) {
        ReadStep::Done(_) => {
            consume_keeps(s, stream, inner, s.at_hand(want));
        },
        ReadStep::Direct => {
            discard_keeps(s, stream, inner + d.delivered().len());
        },
        ReadStep::Fill => {
            let t = ReaderState { storage: d.left, ..s };
            fill_keeps(t, stream, inner, d.reply);
            let full = t.answered(d.reply);
            consume_keeps(full, stream, inner + d.delivered().len(), full.at_hand(want));
        },
    }
}

/// An exact read that goes on without the wrapped reader keeps the mirror.
proof fn lemma_exact_from_keeps<E>(
    s: ReaderState,
    stream: Seq<u8>,
    inner: int,
    out: Seq<u8>,
    got: int,
)
    requires
        mirrors(s, stream, inner),
        0 <= got <= out.len(),
    ensures
        mirrors(reader_state::exact_from::<E>(s, out, got).state, stream, inner),
{
    let n = s.at_hand(out.len() - got);
    consume_keeps(s, stream, inner, n);
    discard_keeps(s.consumed(n), stream, inner);
}

/// A whole exact read keeps the mirror.
proof fn lemma_exact_keeps<E>(
    s: ReaderState,
    stream: Seq<u8>,
    inner: int,
    out: Seq<u8>,
    ds: Seq<Delivery<E>>,
)
    requires
        mirrors(s, stream, inner),
        out.len() <= usize::MAX,
        reader_laws::exact_fits(s, out, ds),
        holds(stream, inner, reader_laws::exact_run(s, out, ds).delivered),
    ensures
        ({
            let run = reader_laws::exact_run(s, out, ds);
            mirrors(run.read.state, stream, inner + run.delivered.len())
        }),
    decreases ds.len(),
{
    let run = reader_laws::exact_run(s, out, ds);
    if ds.len() == 0 {
        lemma_exact_from_keeps::<E>(s, stream, inner, out, 0);
    } else {
        let before = reader_laws::exact_run(s, out, ds.drop_last());
        let b = before.read;
        let d = ds.last();
        reader_laws::exact_conserves(s, out, ds.drop_last());
        if b.step !is Done {
            lemma_holds_prefix(stream, inner, before.delivered, d.delivered());
        }
        lemma_exact_keeps(s, stream, inner, out, ds.drop_last());
        let here = inner + before.delivered.len();
        let there = inner + run.delivered.len();
        match b.step {
            ExactStep::Done(_) => {},
            ExactStep::Fill(_) => {
                let t = ReaderState { storage: d.left, ..b.state };
                fill_keeps(t, stream, here, d.reply);
                lemma_exact_from_keeps::<E>(t.answered(d.reply), stream, there, b.out, b.got);
            },
            ExactStep::Direct(_) => {
                let now = b.out.take(b.got) + d.left;
                assert(b.state.filled == 0);
                assert(mirrors(b.state, stream, there));
                match d.reply {
                    Ok(n) => {
                        lemma_exact_from_keeps::<E>(b.state, stream, there, now, b.got + n);
                    },
                    Err(_) => {
                        lemma_exact_from_keeps::<E>(b.state, stream, there, now, b.got);
                    },
                }
            },
        }
    }
}

/// Where a reader is: what it holds, and the position of the wrapped reader.
pub struct Place {
    /// What the reader holds.
    pub state: ReaderState,
    /// The position of the wrapped reader.
    pub inner: int,
}

impl Place {
    /// The position of the reader itself.
    pub open spec fn position(self) -> int {
        reader_laws::position(self.state, self.inner)
    }
}

/// What can be asked of a reader, with all that the wrapped reader answers.
pub enum Act<E> {
    /// A request for bytes.
    Ask(Request<E>),
    /// So many bytes are taken back.
    Unconsume(int),
    /// What is buffered is dropped.
    Discard,
    /// A seek, with whether the first call and, if there is one, the second
    /// succeed.
    Seek(SeekFrom, bool, bool),
    /// A relative seek, with the same.
    SeekRelative(i64, bool, bool),
}

/// Whether a seek succeeds.
pub open spec fn seek_succeeds(
    s: ReaderState,
    target: SeekFrom,
    first: bool,
    second: bool,
) -> bool {
    match s.seek_step(target) {
        SeekStep::Seek(_) => first,
        SeekStep::Rewind { .. } => first && second,
    }
}

/// A whole seek in a stream of `end` bytes. A call that fails does not move the
/// wrapped reader.
pub open spec fn seek_whole(
    p: Place,
    target: SeekFrom,
    end: int,
    first: bool,
    second: bool,
) -> Place {
    if !first {
        p
    } else {
        match p.state.seek_step(target) {
            SeekStep::Seek(t) => Place {
                state: p.state.discarded(),
                inner: seek::landing(t, p.inner, end),
            },
            SeekStep::Rewind { back, on } => {
                let there = seek::landing(SeekFrom::Current(back), p.inner, end);
                Place {
                    state: p.state.discarded(),
                    inner: if second {
                        seek::landing(SeekFrom::Current(on), there, end)
                    } else {
                        there
                    },
                }
            },
        }
    }
}

/// Where an act leads.
pub open spec fn act<E>(p: Place, what: Act<E>, end: int) -> Place {
    match what {
        Act::Ask(request) => {
            let r = reader_laws::serve(p.state, request);
            Place { state: r.state, inner: p.inner + r.delivered.len() }
        },
        Act::Unconsume(n) => Place { state: p.state.unconsumed(n), inner: p.inner },
        Act::Discard => Place { state: p.state.discarded(), inner: p.inner },
        Act::Seek(target, first, second) => seek_whole(p, target, end, first, second),
        Act::SeekRelative(offset, first, second) => if p.state.within(offset as int) {
            Place { state: ReaderState { pos: p.state.pos + offset, ..p.state }, inner: p.inner }
        } else {
            seek_whole(p, SeekFrom::Current(offset), end, first, second)
        },
    }
}

/// The bytes that an act gives out.
pub open spec fn given<E>(p: Place, what: Act<E>) -> Seq<u8> {
    match what {
        Act::Ask(request) => reader_laws::serve(p.state, request).given,
        _ => Seq::empty(),
    }
}

/// The position of the reader after an act. A read moves it by the bytes that it
/// gives out and a seek to its target, as they would without a buffer; what is
/// taken back or dropped moves it within or out of the buffer.
pub open spec fn destination<E>(p: Place, what: Act<E>, end: int) -> int {
    let at = p.position();
    match what {
        Act::Ask(_) => at + given(p, what).len(),
        Act::Unconsume(n) => at - bytes::least(n, p.state.pos),
        Act::Discard => p.inner,
        Act::Seek(target, first, second) => if seek_succeeds(p.state, target, first, second) {
            seek::landing(target, at, end)
        } else {
            at
        },
        Act::SeekRelative(offset, first, second) => if p.state.within(offset as int)
            || seek_succeeds(p.state, SeekFrom::Current(offset), first, second) {
            at + offset
        } else {
            at
        },
    }
}

/// The act can be done there: the wrapped reader delivers what the stream holds
/// at its position, and does not seek to before the start.
pub open spec fn natural<E>(p: Place, what: Act<E>, stream: Seq<u8>) -> bool {
    match what {
        Act::Ask(request) => {
            &&& reader_laws::possible(p.state, request)
            &&& holds(stream, p.inner, reader_laws::serve(p.state, request).delivered)
        },
        Act::Unconsume(n) => 0 <= n,
        _ => 0 <= destination(p, what, stream.len() as int),
    }
}

/// The act gives out what the stream holds at the position of the reader, and
/// takes the reader to its destination.
pub open spec fn follows<E>(p: Place, what: Act<E>, stream: Seq<u8>) -> bool {
    let end = stream.len() as int;
    &&& holds(stream, p.position(), given(p, what))
    &&& act(p, what, end).position() == destination(p, what, end)
}

/// One act follows the stream, and the buffer still mirrors the stream
/// afterwards.
pub proof fn act_follows_the_stream<E>(p: Place, what: Act<E>, stream: Seq<u8>)
    requires
        mirrors(p.state, stream, p.inner),
        p.state.storage.len() <= isize::MAX,
        natural(p, what, stream),
    ensures
        follows(p, what, stream),
        ({
            let q = act(p, what, stream.len() as int);
            &&& mirrors(q.state, stream, q.inner)
            &&& q.state.storage.len() == p.state.storage.len()
        }),
{
    let s = p.state;
    let end = stream.len() as int;
    pending_is_in_the_stream(s, stream, p.inner);
    match what {
        Act::Ask(request) => {
            let r = reader_laws::serve(s, request);
            reader_laws::serving_conserves(s, request);
            lemma_holds_both(stream, p.position(), s.pending(), r.delivered);
            lemma_holds_prefix(stream, p.position(), r.given, r.state.pending());
            assert((r.given + r.state.pending()).len() == (s.pending() + r.delivered).len());
            match request {
                Request::Read(want, d) => {
                    lemma_read_keeps(s, stream, p.inner, want, d);
                },
                Request::ReadVectored(rows, d) => {
                    lemma_read_keeps(s, stream, p.inner, rows.flatten().len() as int, d);
                },
                Request::Exact(out, ds) => {
                    lemma_exact_keeps(s, stream, p.inner, out, ds);
                },
                Request::ToEnd(rest) => {
                    discard_keeps(s, stream, p.inner + rest.len());
                },
                Request::Fill(d) => {
                    fill_keeps(ReaderState { storage: d.left, ..s }, stream, p.inner, d.reply);
                },
                Request::Consume(n) => {
                    consume_keeps(s, stream, p.inner, n);
                },
            }
        },
        Act::Unconsume(n) => {
            unconsume_keeps(s, stream, p.inner, n);
        },
        Act::Discard => {
            discard_keeps(s, stream, p.inner);
        },
        Act::Seek(target, _, _) => {
            reader_laws::seek_lands(s, target, p.inner, end);
        },
        Act::SeekRelative(offset, _, _) => {
            if s.within(offset as int) {
                seek_within_keeps(s, stream, p.inner, offset as int);
            } else {
                reader_laws::seek_lands(s, SeekFrom::Current(offset), p.inner, end);
            }
        },
    }
}

/// A number of acts, one after the other.
pub open spec fn journey<E>(p: Place, acts: Seq<Act<E>>, end: int) -> Place
    decreases acts.len(),
{
    if acts.len() == 0 {
        p
    } else {
        act(journey(p, acts.drop_last(), end), acts.last(), end)
    }
}

/// Reads of every kind, bytes taken back or dropped and seeks of every kind, in
/// any order and with any answers of a wrapped reader that reads the stream: each
/// gives out what the stream holds at the position that the reader then has, and
/// takes the reader to its destination.
pub proof fn journey_follows_the_stream<E>(p: Place, acts: Seq<Act<E>>, stream: Seq<u8>)
    requires
        mirrors(p.state, stream, p.inner),
        p.state.storage.len() <= isize::MAX,
        forall|k: int|
            0 <= k < acts.len() ==> natural(
                journey(p, acts.take(k), stream.len() as int),
                #[trigger] acts[k],
                stream,
            ),
    ensures
        forall|k: int|
            0 <= k < acts.len() ==> follows(
                journey(p, acts.take(k), stream.len() as int),
                #[trigger] acts[k],
                stream,
            ),
        ({
            let q = journey(p, acts, stream.len() as int);
            &&& mirrors(q.state, stream, q.inner)
            &&& q.state.storage.len() == p.state.storage.len()
        }),
    decreases acts.len(),
{
    let end = stream.len() as int;
    if acts.len() > 0 {
        let last = acts.len() - 1;
        let fewer = acts.drop_last();
        assert forall|k: int| 0 <= k < fewer.len() implies natural(
            journey(p, fewer.take(k), end),
            #[trigger] fewer[k],
            stream,
        ) by {
            assert(fewer[k] == acts[k]);
            assert(fewer.take(k) == acts.take(k));
        }
        journey_follows_the_stream(p, fewer, stream);
        assert(acts.take(last) == fewer);
        assert(natural(journey(p, fewer, end), acts[last], stream));
        act_follows_the_stream(journey(p, fewer, end), acts.last(), stream);
        assert forall|k: int| 0 <= k < acts.len() implies follows(
            journey(p, acts.take(k), end),
            #[trigger] acts[k],
            stream,
        ) by {
            if k < last {
                assert(fewer[k] == acts[k]);
                assert(fewer.take(k) == acts.take(k));
            }
        }
    }
}

} // verus!
