//! Buffered readers and writers whose buffer is an array in the value itself:
//! [`StackBufReader`] and [`StackBufWriter`].
//!
//! Neither calls the reader or writer that it wraps. Each operation is cut at
//! such calls: it says which call to make, the caller makes it, and hands back
//! what came of it. What is in between, all decisions and all handling of
//! bytes, is here.
//!
//! [`reader_state`] and [`writer_state`] say what an operation does, as
//! functions on what a reader or writer holds. [`reader_calls`],
//! [`writer_calls`] and [`text_calls`] say what must hold of any single call, of
//! its arguments and its result, whatever those functions are. [`reader_laws`] and
//! [`writer_laws`] say what follows for any number of operations, whatever the
//! wrapped reader or writer answers. [`stream_laws`] says what a reader gives out
//! of a stream in which it reads and seeks in any order.

pub mod bytes;
pub mod error;
pub mod reader_calls;
pub mod reader_laws;
pub mod reader_state;
pub mod seek;
pub mod stack_bufreader;
pub mod stack_bufwriter;
pub mod stream_laws;
pub mod text;
pub mod text_calls;
pub mod writer_calls;
pub mod writer_laws;
pub mod writer_state;

pub use crate::error::{Error, ErrorKind, Failure};
pub use crate::reader_state::{ExactStep, ReadStep, SeekStep};
pub use crate::seek::SeekFrom;
pub use crate::stack_bufreader::StackBufReader;
pub use crate::stack_bufwriter::StackBufWriter;
pub use crate::writer_state::{FlushStep, FollowStep, FollowUp, VectoredStep, WriteStep};
