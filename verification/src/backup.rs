//! The backup engine: from a source path and a compression flag to the
//! artifact's path and the action that produces it.

use vstd::prelude::*;
use crate::action::{Action, ActionView};
use crate::codec::{ArchiveEntry, ArchiveEntryView};
use crate::error::Error;
use crate::kind::EntryKind;
use crate::path::{
    add_extension, archive_suffix, file_name, final_component, plain_dir_suffix,
    plain_file_suffix, trim_end,
};

verus! {

/// The backup of the file `path`, named `name`.
pub open spec fn file_backup(path: Seq<char>, name: Seq<char>, compress: bool) -> ActionView {
    if compress {
        ActionView::Pack {
            archive: trim_end(path) + archive_suffix(),
            entry: ArchiveEntryView::File { name, path },
        }
    } else {
        ActionView::CopyFile { from: path, to: trim_end(path) + plain_file_suffix() }
    }
}

/// The backup of the directory `path`, named `name`.
pub open spec fn dir_backup(path: Seq<char>, name: Seq<char>, compress: bool) -> ActionView {
    if compress {
        ActionView::Pack {
            archive: trim_end(path) + archive_suffix(),
            entry: ArchiveEntryView::Tree { name, path },
        }
    } else {
        ActionView::MirrorTree { from: path, to: trim_end(path) + plain_dir_suffix() }
    }
}

/// The backup planned for the source `path` of kind `kind`: nothing for a
/// missing source, nothing for a path without a final component, and else the
/// action that fits the kind and the flag. A source that is neither file nor
/// directory is never backed up, and this says nothing of it.
pub open spec fn backup_plan(path: Seq<char>, kind: EntryKind, compress: bool) -> Result<
    ActionView,
    Error,
>
    recommends
        kind != EntryKind::Unsupported,
{
    match kind {
        EntryKind::Missing => Err(Error::NotFound),
        _ => match final_component(path) {
            None => Err(Error::InvalidPath),
            Some(name) => if kind == EntryKind::Directory {
                Ok(dir_backup(path, name, compress))
            } else {
                Ok(file_backup(path, name, compress))
            },
        },
    }
}

/// A source as handed to a batch: its path and what the path names on disk.
#[derive(Debug, PartialEq, Eq)]
pub struct Source {
    pub path: String,
    pub kind: EntryKind,
}

/// Whether the planner's answer `r` is the plan `plan`.
pub open spec fn answers(r: Result<Action, Error>, plan: Result<ActionView, Error>) -> bool {
    match plan {
        Ok(action) => r matches Ok(a) && a@ == action,
        Err(error) => r matches Err(e) && e == error,
    }
}

/// The kind of a source that is a directory or a file.
pub open spec fn kind_of_source(directory: bool) -> EntryKind {
    if directory {
        EntryKind::Directory
    } else {
        EntryKind::File
    }
}

/// Plans the backup of `path`, which is a directory or a file.
fn plan(path: &str, directory: bool, compress: bool) -> (r: Result<Action, Error>)
    ensures
        answers(r, backup_plan(path@, kind_of_source(directory), compress)),
{
    proof {
        reveal_strlit(".tar.zstd");
        reveal_strlit(".bak.d");
        reveal_strlit(".bak");
        assert(".tar.zstd"@ =~= archive_suffix());
        assert(".bak.d"@ =~= plain_dir_suffix());
        assert(".bak"@ =~= plain_file_suffix());
    }
    let name = match file_name(path) {
        Some(name) => name,
        None => { return Err(Error::InvalidPath); },
    };
    let suffix = if compress {
        ".tar.zstd"
    } else if directory {
        ".bak.d"
    } else {
        ".bak"
    };
    let artifact = match add_extension(path, suffix) {
        Ok(artifact) => artifact,
        Err(e) => { return Err(e); },
    };
    let source = String::from_str(path);
    if !compress {
        if directory {
            Ok(Action::MirrorTree { from: source, to: artifact })
        } else {
            Ok(Action::CopyFile { from: source, to: artifact })
        }
    } else if directory {
        Ok(Action::Pack { archive: artifact, entry: ArchiveEntry::Tree { name, path: source } })
    } else {
        Ok(Action::Pack { archive: artifact, entry: ArchiveEntry::File { name, path: source } })
    }
}

/// Plans the backup of the file `path`.
///
/// Without compression the file is copied to its own name with `.bak`
/// appended. With compression it becomes the single entry, under its own file
/// name, of an archive named after it with `.tar.zstd` appended. A path that
/// already ends in one of these suffixes is treated like any other and gets a
/// second one. Fails with `InvalidPath` exactly when `path` has no final
/// component.
pub fn backup_file(path: &str, compress: bool) -> (r: Result<Action, Error>)
    ensures
        answers(r, backup_plan(path@, EntryKind::File, compress)),
{
    plan(path, false, compress)
}

/// Plans the backup of the directory `path`.
///
/// Without compression the tree is mirrored as a directory of the same name
/// with `.bak.d` appended. With compression it becomes an archive named after
/// it with `.tar.zstd` appended, the directory's own name being the root of
/// the entries inside. Fails with `InvalidPath` exactly when `path` has no
/// final component.
pub fn backup_dir(path: &str, compress: bool) -> (r: Result<Action, Error>)
    ensures
        answers(r, backup_plan(path@, EntryKind::Directory, compress)),
{
    plan(path, true, compress)
}

/// Plans the backup of the source `path`, whose kind the caller has looked up.
///
/// A missing source fails with `NotFound`. A source that is neither a file
/// nor a directory is not this function's to handle: the caller refuses it.
pub fn backup(path: &str, kind: EntryKind, compress: bool) -> (r: Result<Action, Error>)
    requires
        kind != EntryKind::Unsupported,
    ensures
        answers(r, backup_plan(path@, kind, compress)),
{
    match kind {
        EntryKind::Missing => Err(Error::NotFound),
        EntryKind::Directory => backup_dir(path, compress),
        _ => backup_file(path, compress),
    }
}

/// Plans the backup of each of `sources` by itself, in order.
///
/// The outcome for one source depends on that source alone: a source that is
/// missing or has no usable name yields its error and leaves the plans for
/// the others as they would be without it.
pub fn backup_all(sources: &Vec<Source>, compress: bool) -> (outcomes: Vec<Result<Action, Error>>)
    requires
        forall|i: int| 0 <= i < sources.len() ==> sources[i].kind != EntryKind::Unsupported,
    ensures
        outcomes.len() == sources.len(),
        forall|i: int|
            0 <= i < sources.len() ==> answers(
                #[trigger] outcomes[i],
                backup_plan(sources[i].path@, sources[i].kind, compress),
            ),
{
    let mut outcomes: Vec<Result<Action, Error>> = Vec::new();
    let mut i: usize = 0;
    while i < sources.len()
        invariant
            i <= sources.len(),
            outcomes.len() == i,
            forall|k: int| 0 <= k < sources.len() ==> sources[k].kind != EntryKind::Unsupported,
            forall|k: int|
                0 <= k < i ==> answers(
                    #[trigger] outcomes[k],
                    backup_plan(sources[k].path@, sources[k].kind, compress),
                ),
        decreases sources.len() - i,
    {
        let source = &sources[i];
        outcomes.push(backup(source.path.as_str(), source.kind, compress));
        i += 1;
    }
    outcomes
}

} // verus!
