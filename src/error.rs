use vstd::prelude::*;

verus! {

/// What went wrong.
#[derive(Debug, Clone, Copy, PartialEq, Eq, Structural)]
pub enum Error {
    /// Encoding or decoding failed.
    Serialize,
    /// A corpus or state file could not be opened.
    FileOpen,
    /// A corpus or state file could not be read.
    FileRead,
    /// A corpus or state file could not be written.
    FileWrite,
    /// Fuzzing is to stop; not a failure.
    ShuttingDown,
    /// The operation needs a non-empty corpus.
    Empty,
    /// An argument is out of its allowed range.
    IllegalArgument,
    /// The state does not allow the operation.
    IllegalState,
    /// The feature is not built in.
    NotImplemented,
    /// Anything else.
    Unknown,
}

} // verus!
