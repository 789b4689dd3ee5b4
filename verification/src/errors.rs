//! The failure kinds of a mining pass. Any one of them aborts the whole pass:
//! there is no partial-success mode, and a failed pass yields no repository
//! model at all.

use vstd::prelude::*;

verus! {

/// One typed failure per stage that can fail.
///
/// The variants that arise while reading the outside world (`GitError`,
/// `FileReadError`) are produced by the caller that does that reading and are
/// carried through unchanged; the library itself produces `ConversionError`
/// (a byte length or a count not representable in the chosen integer width)
/// and `FilePathError` (a file path that cannot be written relative to the
/// repository root).
#[derive(Clone, Copy, Debug, PartialEq, Eq, Structural)]
pub enum SourceCodeError {
    SerializationError,
    QdrantError,
    GitError,
    ConversionError,
    FileReadError,
    FilePathError,
}

} // verus!
