//! The ways a backup or restore can be refused or can fail.

use vstd::prelude::*;

verus! {

/// Why an operation was refused by the planner or failed while it was carried out.
#[derive(Clone, Copy, Debug, PartialEq, Eq, Structural)]
pub enum Error {
    /// A source, an artifact or an output directory is missing.
    NotFound,
    /// The path has no final component to derive a name from.
    InvalidPath,
    /// The artifact's name promises a file or a directory and the entry on
    /// disk is the other.
    InvalidArtifact,
    /// The artifact's name carries none of the known suffixes.
    UnrecognizedFormat,
    /// The compressed stream or the archive inside it is malformed.
    CorruptArchive,
    /// Reading, writing, copying or creating failed underneath.
    Io,
}

} // verus!
