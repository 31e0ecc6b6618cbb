//! What can go wrong.

use vstd::prelude::*;

verus! {

/// A failed call on the wrapped reader or writer.
#[derive(Debug, PartialEq, Eq)]
pub struct Failure<E> {
    /// Whether the call was merely interrupted, and may be made again.
    pub interrupted: bool,
    /// The error that the call returned.
    pub error: E,
}

/// Why an operation failed.
#[derive(Debug, PartialEq, Eq)]
pub enum Error<E> {
    /// The wrapped reader or writer returned this error.
    Inner(E),
    /// The wrapped writer took none of the bytes that it was offered.
    WriteZero,
    /// The wrapped reader ended too early.
    UnexpectedEof,
    /// The bytes are no UTF-8.
    InvalidData,
    /// There is no memory for the bytes.
    OutOfMemory,
}

/// The kind of an error that the buffers themselves report.
#[derive(Debug, Clone, Copy, PartialEq, Eq)]
pub enum ErrorKind {
    /// A write took no bytes.
    WriteZero,
    /// The input ended too early.
    UnexpectedEof,
    /// The input is malformed.
    InvalidData,
    /// There is no memory left.
    OutOfMemory,
}

impl<E> Error<E> {
    /// The kind of an error that the buffers themselves report; nothing for
    /// one that came from the wrapped reader or writer.
    pub fn kind(&self) -> (kind: Option<ErrorKind>)
        ensures
            kind == match *self {
                Error::Inner(_) => None::<ErrorKind>,
                Error::WriteZero => Some(ErrorKind::WriteZero),
                Error::UnexpectedEof => Some(ErrorKind::UnexpectedEof),
                Error::InvalidData => Some(ErrorKind::InvalidData),
                Error::OutOfMemory => Some(ErrorKind::OutOfMemory),
            },
    {
        match self {
            Error::Inner(_) => None,
            Error::WriteZero => Some(ErrorKind::WriteZero),
            Error::UnexpectedEof => Some(ErrorKind::UnexpectedEof),
            Error::InvalidData => Some(ErrorKind::InvalidData),
            Error::OutOfMemory => Some(ErrorKind::OutOfMemory),
        }
    }

    /// The message of an error that the buffers themselves report, where it
    /// has one.
    pub fn message(&self) -> (message: Option<&'static str>)
        ensures
            match *self {
                Error::WriteZero => message is Some && message->0@
                    == "failed to write the buffered data"@,
                Error::UnexpectedEof => message is Some && message->0@
                    == "failed to fill whole buffer"@,
                Error::InvalidData => message is Some && message->0@
                    == "stream did not contain valid UTF-8"@,
                Error::Inner(_) | Error::OutOfMemory => message is None,
            },
    {
        match self {
            Error::WriteZero => Some("failed to write the buffered data"),
            Error::UnexpectedEof => Some("failed to fill whole buffer"),
            Error::InvalidData => Some("stream did not contain valid UTF-8"),
            Error::Inner(_) | Error::OutOfMemory => None,
        }
    }
}

} // verus!
