use vstd::prelude::*;

verus! {

/// The kinds of failure that notebook operations report.
#[derive(Debug, Clone, Copy, PartialEq, Eq, Structural)]
pub enum ErrorCode {
    NotFoundError,
    IoError,
    SerializationError,
    DeserializationError,
    Unsupported,
    NotebookNotLoadedYet,
}

} // verus!
