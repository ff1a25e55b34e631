//! What a path names on disk, as far as the planner needs to know.

use vstd::prelude::*;

verus! {

/// The kind of filesystem entry a path resolves to, looked up once by the
/// caller and handed to the planner as a plain tag.
#[derive(Clone, Copy, Debug, PartialEq, Eq, Structural)]
pub enum EntryKind {
    /// Nothing exists at the path.
    Missing,
    /// A regular file.
    File,
    /// A directory.
    Directory,
    /// Something that exists but is neither a regular file nor a directory.
    Unsupported,
}

impl EntryKind {
    /// Whether anything exists at the path.
    pub fn is_present(self) -> (r: bool)
        ensures
            r == (self != EntryKind::Missing),
    {
        !matches!(self, EntryKind::Missing)
    }
}

} // verus!
