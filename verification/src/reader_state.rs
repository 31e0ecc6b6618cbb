//! The model of a buffered reader: what it holds, and how each operation
//! changes it.

use vstd::prelude::*;

use crate::bytes;
use crate::error::{Error, Failure};
use crate::seek::SeekFrom;

verus! {

/// What a read comes to before the wrapped reader is asked for anything.
#[derive(Debug, Clone, Copy, PartialEq, Eq)]
pub enum ReadStep {
    /// The read is over; so many bytes were read.
    Done(usize),
    /// The buffer is empty and must be filled before the read can go on.
    Fill,
    /// The buffer is empty and the read is too large for it: the wrapped
    /// reader must read straight into the destination, and its answer is the
    /// answer of the read.
    Direct,
}

/// What an exact read comes to between two calls on the wrapped reader.
#[derive(Debug, PartialEq, Eq)]
pub enum ExactStep<E> {
    /// So many bytes of the destination are read; the buffer is empty and must
    /// be filled before the read can go on.
    Fill(usize),
    /// So many bytes of the destination are read; the wrapped reader must read
    /// straight into the rest of it.
    Direct(usize),
    /// The read is over.
    Done(Result<(), Error<E>>),
}

/// What a seek comes to before the wrapped reader is asked to move.
#[derive(Debug, Clone, Copy, PartialEq, Eq)]
pub enum SeekStep {
    /// The wrapped reader must seek to this target.
    Seek(SeekFrom),
    /// The wrapped reader must seek to `SeekFrom::Current(back)`, and if that
    /// goes well to `SeekFrom::Current(on)`.
    Rewind {
        /// How far back the bytes lie that are buffered and not yet read.
        back: i64,
        /// How far to move from there.
        on: i64,
    },
}

/// What a buffered reader holds.
#[verifier::ext_equal]
pub struct ReaderState {
    /// All bytes of the buffer, whether or not they mean anything.
    pub storage: Seq<u8>,
    /// How many bytes at the start of the buffer were given out already.
    pub pos: int,
    /// How many bytes at the start of the buffer came from the wrapped reader.
    pub filled: int,
}

impl ReaderState {
    /// No more bytes were given out than came in, and no more came in than
    /// there is room for.
    pub open spec fn valid(self) -> bool {
        0 <= self.pos <= self.filled <= self.storage.len()
    }

    /// The bytes that are buffered and not yet given out.
    pub open spec fn pending(self) -> Seq<u8> {
        self.storage.subrange(self.pos, self.filled)
    }

    /// The state without any buffered data.
    pub open spec fn discarded(self) -> ReaderState {
        ReaderState { pos: 0, filled: 0, ..self }
    }

    /// The state after up to `amt` more bytes were given out.
    pub open spec fn consumed(self, amt: int) -> ReaderState {
        ReaderState { pos: bytes::least(self.pos + amt, self.filled), ..self }
    }

    /// The state after up to `amt` of the bytes given out last were taken back.
    pub open spec fn unconsumed(self, amt: int) -> ReaderState {
        ReaderState { pos: self.pos - bytes::least(amt, self.pos), ..self }
    }

    /// The state after the wrapped reader left `n` bytes at the start of the
    /// buffer.
    pub open spec fn loaded(self, n: int) -> ReaderState {
        ReaderState { pos: 0, filled: n, ..self }
    }

    /// The state after a call on the wrapped reader to fill the buffer.
    pub open spec fn answered<T>(self, reply: Result<usize, T>) -> ReaderState {
        match reply {
            Ok(n) => self.loaded(n as int),
            Err(_) => self.discarded(),
        }
    }

    /// How many bytes a read of `want` bytes gets without the wrapped reader.
    pub open spec fn at_hand(self, want: int) -> int {
        bytes::least(self.pending().len() as int, want)
    }

    /// What a read of `want` bytes comes to before the wrapped reader is asked.
    pub open spec fn read_step(self, want: int) -> ReadStep {
        if self.pending().len() > 0 {
            ReadStep::Done(self.at_hand(want) as usize)
        } else if want >= self.storage.len() {
            ReadStep::Direct
        } else {
            ReadStep::Fill
        }
    }

    /// The state that such a read leaves.
    pub open spec fn read_state(self, want: int) -> ReaderState {
        if self.pending().len() > 0 {
            self.consumed(self.at_hand(want))
        } else if want >= self.storage.len() {
            self.discarded()
        } else {
            self
        }
    }

    /// What a seek comes to.
    pub open spec fn seek_step(self, target: SeekFrom) -> SeekStep {
        let ahead = self.pending().len();
        match target {
            SeekFrom::Current(n) => if n - ahead >= i64::MIN {
                SeekStep::Seek(SeekFrom::Current((n - ahead) as i64))
            } else {
                SeekStep::Rewind { back: (-ahead) as i64, on: n }
            },
            _ => SeekStep::Seek(target),
        }
    }

    /// Whether the position `offset` bytes from the current one lies in the
    /// buffer or right behind it.
    pub open spec fn within(self, offset: int) -> bool {
        0 <= self.pos + offset <= self.filled
    }
}

/// An exact read under way.
pub struct ExactRead<E> {
    /// What the reader holds.
    pub state: ReaderState,
    /// The destination.
    pub out: Seq<u8>,
    /// How many bytes of the destination are read.
    pub got: int,
    /// What comes next.
    pub step: ExactStep<E>,
}

/// An exact read of which `got` bytes are there goes on for as long as the
/// buffer has bytes.
pub open spec fn exact_from<E>(state: ReaderState, out: Seq<u8>, got: int) -> ExactRead<E> {
    let n = state.at_hand(out.len() - got);
    let after = state.consumed(n);
    let now = got + n;
    let filled_out = bytes::overwrite(out, got, state.pending().take(n));
    if now == out.len() {
        ExactRead { state: after, out: filled_out, got: now, step: ExactStep::Done(Ok(())) }
    } else if out.len() - now >= state.storage.len() {
        ExactRead {
            state: after.discarded(),
            out: filled_out,
            got: now,
            step: ExactStep::Direct(now as usize),
        }
    } else {
        ExactRead { state: after, out: filled_out, got: now, step: ExactStep::Fill(now as usize) }
    }
}

/// An exact read goes on after a call on the wrapped reader: `got` bytes are
/// there for certain, and `more` with the bytes that the call read into the
/// destination.
pub open spec fn exact_after<E>(
    state: ReaderState,
    out: Seq<u8>,
    got: int,
    more: int,
    reply: Result<usize, Failure<E>>,
) -> ExactRead<E> {
    match reply {
        Ok(n) => if n == 0 {
            ExactRead { state, out, got, step: ExactStep::Done(Err(Error::UnexpectedEof)) }
        } else {
            exact_from(state, out, more)
        },
        Err(failure) => if failure.interrupted {
            exact_from(state, out, got)
        } else {
            ExactRead { state, out, got, step: ExactStep::Done(Err(Error::Inner(failure.error))) }
        },
    }
}

/// An exact read goes on after a call to fill the buffer.
pub open spec fn exact_filled<E>(
    state: ReaderState,
    out: Seq<u8>,
    got: int,
    reply: Result<usize, Failure<E>>,
) -> ExactRead<E> {
    exact_after(state.answered(reply), out, got, got, reply)
}

/// An exact read goes on after a call that read straight into the rest of the
/// destination.
pub open spec fn exact_direct<E>(
    state: ReaderState,
    out: Seq<u8>,
    got: int,
    reply: Result<usize, Failure<E>>,
) -> ExactRead<E> {
    exact_after(
        state,
        out,
        got,
        match reply {
            Ok(n) => got + n,
            Err(_) => got,
        },
        reply,
    )
}

} // verus!
