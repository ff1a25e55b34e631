//! The restore engine: from an artifact's path and an output directory to
//! the action that brings the source back.

use vstd::prelude::*;
use crate::action::{Action, ActionView};
use crate::backup::answers;
use crate::error::Error;
use crate::kind::EntryKind;
use crate::path::{
    classify, classify_artifact, file_name, final_component, join, joined, strip_suffix,
    without_suffix, ArtifactClass,
};

verus! {

/// The name under which the source of `artifact` was known: the final
/// component of the artifact's path without its suffix.
pub open spec fn source_name(artifact: Seq<char>) -> Option<Seq<char>> {
    match without_suffix(artifact) {
        Some(stem) => final_component(stem),
        None => None,
    }
}

/// The kind of entry that an artifact of class `class` must be on disk.
pub open spec fn expected_kind(class: ArtifactClass) -> EntryKind {
    if class == ArtifactClass::PlainDir {
        EntryKind::Directory
    } else {
        EntryKind::File
    }
}

/// The restore planned for `artifact` into `output_dir`, given what each of
/// the two is on disk. The checks come in this order: both must be there and
/// the output must be a directory; the suffix must be known; the artifact
/// must be of the kind its suffix promises; and, for a plain copy or mirror,
/// the name without the suffix must have a final component.
pub open spec fn restore_plan(
    artifact: Seq<char>,
    artifact_kind: EntryKind,
    output_dir: Seq<char>,
    output_kind: EntryKind,
) -> Result<ActionView, Error> {
    let class = classify(artifact);
    if artifact_kind == EntryKind::Missing || output_kind != EntryKind::Directory {
        Err(Error::NotFound)
    } else if class == ArtifactClass::Unknown {
        Err(Error::UnrecognizedFormat)
    } else if artifact_kind != expected_kind(class) {
        Err(Error::InvalidArtifact)
    } else if class == ArtifactClass::Archive {
        Ok(ActionView::Unpack { archive: artifact, into: output_dir })
    } else {
        match source_name(artifact) {
            None => Err(Error::InvalidPath),
            Some(name) => if class == ArtifactClass::PlainDir {
                Ok(ActionView::MirrorTree { from: artifact, to: joined(output_dir, name) })
            } else {
                Ok(ActionView::CopyFile { from: artifact, to: joined(output_dir, name) })
            },
        }
    }
}

/// Where under `output_dir` the source of the plain artifact `path` goes back.
fn restore_target(path: &str, output_dir: &str) -> (r: Result<String, Error>)
    ensures
        match source_name(path@) {
            Some(name) => r matches Ok(s) && s@ == joined(output_dir@, name),
            None => r matches Err(e) && e == Error::InvalidPath,
        },
{
    let stem = match strip_suffix(path) {
        Ok(stem) => stem,
        Err(_) => { return Err(Error::InvalidPath); },
    };
    match file_name(stem.as_str()) {
        Some(name) => Ok(join(output_dir, name.as_str())),
        None => Err(Error::InvalidPath),
    }
}

/// Plans the restore of the artifact `path` into `output_dir`, whose kinds on
/// disk the caller has looked up.
///
/// Nothing is planned, and so nothing written, unless every check passes:
/// `NotFound` where the artifact is missing or the output is not an existing
/// directory; `UnrecognizedFormat` where the artifact's name has no known
/// suffix; `InvalidArtifact` where an archive or a `.bak` is not a regular
/// file, or a `.bak.d` not a directory; `InvalidPath` where a plain artifact's
/// name leaves no file name once the suffix is taken off. Otherwise an
/// archive is unpacked into `output_dir`, and a plain copy or mirror is
/// copied back under the source's name inside `output_dir`.
pub fn restore(path: &str, path_kind: EntryKind, output_dir: &str, output_kind: EntryKind) -> (r:
    Result<Action, Error>)
    ensures
        answers(r, restore_plan(path@, path_kind, output_dir@, output_kind)),
{
    if !path_kind.is_present() {
        return Err(Error::NotFound);
    }
    match output_kind {
        EntryKind::Directory => {},
        _ => { return Err(Error::NotFound); },
    }
    match classify_artifact(path) {
        ArtifactClass::Unknown => Err(Error::UnrecognizedFormat),
        ArtifactClass::Archive => match path_kind {
            EntryKind::File => Ok(
                Action::Unpack {
                    archive: String::from_str(path),
                    into: String::from_str(output_dir),
                },
            ),
            _ => Err(Error::InvalidArtifact),
        },
        ArtifactClass::PlainFile => match path_kind {
            EntryKind::File => match restore_target(path, output_dir) {
                Ok(to) => Ok(Action::CopyFile { from: String::from_str(path), to }),
                Err(e) => Err(e),
            },
            _ => Err(Error::InvalidArtifact),
        },
        ArtifactClass::PlainDir => match path_kind {
            EntryKind::Directory => match restore_target(path, output_dir) {
                Ok(to) => Ok(Action::MirrorTree { from: String::from_str(path), to }),
                Err(e) => Err(e),
            },
            _ => Err(Error::InvalidArtifact),
        },
    }
}

} // verus!
