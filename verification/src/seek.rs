//! Seek targets.

use vstd::prelude::*;

verus! {

/// A position in a stream, seen from its start, its end, or the current
/// position.
#[derive(Debug, Clone, Copy, PartialEq, Eq)]
pub enum SeekFrom {
    /// So many bytes from the start.
    Start(u64),
    /// So many bytes from the end.
    End(i64),
    /// So many bytes from the current position.
    Current(i64),
}

/// The position that `target` names in a stream of `end` bytes when the
/// current position is `at`.
pub open spec fn landing(target: SeekFrom, at: int, end: int) -> int {
    match target {
        SeekFrom::Start(n) => n as int,
        SeekFrom::End(n) => end + n,
        SeekFrom::Current(n) => at + n,
    }
}

} // verus!
