//! What a planned backup or restore asks its caller to carry out.

use vstd::prelude::*;
use crate::codec::{ArchiveEntry, ArchiveEntryView};

verus! {

/// The one filesystem operation that a backup or a restore comes down to.
#[derive(Debug, PartialEq, Eq)]
pub enum Action {
    /// Copy the bytes of the file `from` to `to`.
    CopyFile { from: String, to: String },
    /// Mirror the directory `from` as `to`.
    MirrorTree { from: String, to: String },
    /// Write a new archive holding `entry`.
    Pack { archive: String, entry: ArchiveEntry },
    /// Unpack the archive below the directory `into`.
    Unpack { archive: String, into: String },
}

/// An action over plain text.
pub ghost enum ActionView {
    CopyFile { from: Seq<char>, to: Seq<char> },
    MirrorTree { from: Seq<char>, to: Seq<char> },
    Pack { archive: Seq<char>, entry: ArchiveEntryView },
    Unpack { archive: Seq<char>, into: Seq<char> },
}

impl View for Action {
    type V = ActionView;

    open spec fn view(&self) -> ActionView {
        match self {
            Action::CopyFile { from, to } => ActionView::CopyFile { from: from@, to: to@ },
            Action::MirrorTree { from, to } => ActionView::MirrorTree { from: from@, to: to@ },
            Action::Pack { archive, entry } => ActionView::Pack {
                archive: archive@,
                entry: entry@,
            },
            Action::Unpack { archive, into } => ActionView::Unpack {
                archive: archive@,
                into: into@,
            },
        }
    }
}

/// The path that `action` writes: the copy, the mirror, the archive, or the
/// directory unpacked into.
pub open spec fn written_path(action: ActionView) -> Seq<char> {
    match action {
        ActionView::CopyFile { to, .. } => to,
        ActionView::MirrorTree { to, .. } => to,
        ActionView::Pack { archive, .. } => archive,
        ActionView::Unpack { into, .. } => into,
    }
}

impl Action {
    /// The path that the action writes. For a planned backup this is the
    /// artifact.
    pub fn target(&self) -> (r: &String)
        ensures
            r@ == written_path(self@),
    {
        match self {
            Action::CopyFile { to, .. } => to,
            Action::MirrorTree { to, .. } => to,
            Action::Pack { archive, .. } => archive,
            Action::Unpack { into, .. } => into,
        }
    }
}

} // verus!
