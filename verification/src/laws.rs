//! What holds of the planner as a whole: facts that tie naming,
//! classification, backup and restore to one another.

use vstd::prelude::*;
use crate::action::{written_path, ActionView};
use crate::backup::{backup_plan, kind_of_source};
use crate::codec::ArchiveEntryView;
use crate::confirm::{decision_after_answer, decision_after_restore, Answer, Decision};
use crate::error::Error;
use crate::kind::EntryKind;
use crate::model::{copied, same_file, Store};
use crate::path::{
    archive_suffix, archive_suffix_short, at_or_below, below, classify, ends_with,
    final_component, is_component, is_name, is_suffix_text, joined, last_segment,
    matched_suffix, parent_text, plain_dir_suffix, plain_file_suffix, trim_end,
    with_suffix, without_suffix, ArtifactClass,
};
use crate::restore::{source_name, restore_plan};

verus! {

/// Trimming cuts `p` in front of a separator, or not at all, and what is
/// left ends neither with a separator nor with a single-dot component.
pub proof fn trim_end_cuts_at_separator(p: Seq<char>)
    ensures
        trim_end(p).len() <= p.len(),
        trim_end(p) == p.take(trim_end(p).len() as int),
        trim_end(p).len() < p.len() ==> p[trim_end(p).len() as int] == '/',
        trim_end(p).len() == 0 || trim_end(p).last() != '/',
        trim_end(trim_end(p)) == trim_end(p),
    decreases p.len(),
{
    if p.len() > 0 && p.last() == '/' {
        let q = p.drop_last();
        trim_end_cuts_at_separator(q);
        assert(trim_end(p) =~= p.take(trim_end(p).len() as int));
    } else if p.len() >= 2 && p.last() == '.' && p[p.len() - 2] == '/' {
        let q = p.take(p.len() - 2);
        trim_end_cuts_at_separator(q);
        assert(trim_end(p) =~= p.take(trim_end(p).len() as int));
    } else {
        assert(p =~= p.take(p.len() as int));
    }
}

/// Trimming a second time changes nothing.
pub proof fn trim_is_idempotent(p: Seq<char>)
    ensures
        trim_end(trim_end(p)) == trim_end(p),
{
    trim_end_cuts_at_separator(p);
}

/// The last segment is the end of the path, holds no separator, and has a
/// separator before it unless it is the whole path.
pub proof fn last_segment_ends_path(p: Seq<char>)
    ensures
        last_segment(p).len() <= p.len(),
        p == p.take(p.len() - last_segment(p).len()) + last_segment(p),
        forall|i: int| 0 <= i < last_segment(p).len() ==> last_segment(p)[i] != '/',
        last_segment(p).len() == p.len() || p[p.len() - last_segment(p).len() - 1] == '/',
    decreases p.len(),
{
    if p.len() > 0 && p.last() != '/' {
        let q = p.drop_last();
        last_segment_ends_path(q);
        let cut: int = q.len() - last_segment(q).len();
        assert(p.take(cut) =~= q.take(cut));
        assert(p =~= q.push(p.last()));
        assert((q.take(cut) + last_segment(q)).push(p.last()) =~= q.take(cut) + last_segment(
            q,
        ).push(p.last()));
    } else {
        assert(p =~= p.take(p.len() as int) + Seq::<char>::empty());
    }
}

/// Text without a separator, put behind a path, goes on from the path's last
/// segment.
pub proof fn last_segment_grows(p: Seq<char>, tail: Seq<char>)
    requires
        is_suffix_text(tail),
    ensures
        last_segment(p + tail) == last_segment(p) + tail,
    decreases tail.len(),
{
    if tail.len() == 0 {
        assert(p + tail =~= p);
        assert(last_segment(p) + tail =~= last_segment(p));
    } else {
        let init = tail.drop_last();
        last_segment_grows(p, init);
        assert((p + tail).drop_last() =~= p + init);
        assert((last_segment(p) + init).push(tail.last()) =~= last_segment(p) + tail);
    }
}

/// The final component of a path is a component, and the path, trimmed at
/// its end, is what comes before it followed by it: nothing, or text that
/// ends with a separator.
pub proof fn final_component_ends_path(p: Seq<char>)
    requires
        final_component(p) is Some,
    ensures
        is_component(final_component(p)->0),
        trim_end(p) == parent_text(p) + final_component(p)->0,
        parent_text(p).len() == 0 || parent_text(p).last() == '/',
{
    last_segment_ends_path(trim_end(p));
}

/// A suffix is appended to the final component and to nothing else: the
/// artifact's path has the text before the component unchanged, and its
/// final component is the source's with the suffix behind it.
pub proof fn suffix_lands_on_final_component(p: Seq<char>, suffix: Seq<char>)
    requires
        final_component(p) is Some,
        is_suffix_text(suffix),
    ensures
        with_suffix(p, suffix) == Some(parent_text(p) + (final_component(p)->0 + suffix)),
        final_component(with_suffix(p, suffix)->0) == Some(final_component(p)->0 + suffix),
        parent_text(with_suffix(p, suffix)->0) == parent_text(p),
{
    let stem = trim_end(p);
    let name = final_component(p)->0;
    let artifact = stem + suffix;
    final_component_ends_path(p);
    trim_end_cuts_at_separator(p);
    last_segment_grows(stem, suffix);
    assert(artifact =~= parent_text(p) + (name + suffix));
    assert(trim_end(artifact) == artifact) by {
        if suffix.len() > 0 {
            assert(artifact.last() == suffix.last());
        } else {
            assert(artifact =~= stem);
        }
    }
    assert(is_name(name + suffix)) by {
        let whole = name + suffix;
        assert(name =~= whole.take(name.len() as int));
        if whole == seq!['.'] {
            assert(name =~= seq!['.']);
        }
        if whole == seq!['.', '.'] {
            if name.len() == 1 {
                assert(name =~= seq!['.']);
            } else {
                assert(name =~= seq!['.', '.']);
            }
        }
    }
    assert(parent_text(artifact) =~= parent_text(p)) by {
        assert(artifact.take(artifact.len() - (name + suffix).len()) =~= stem.take(
            stem.len() - name.len(),
        ));
    }
}

/// The path of a component joined to a directory lies inside the directory
/// and does not end with a separator.
pub proof fn joined_is_below(dir: Seq<char>, name: Seq<char>)
    requires
        is_component(name),
    ensures
        below(dir, joined(dir, name)),
        joined(dir, name).len() > 0,
        joined(dir, name).last() != '/',
        joined(dir, name) == (if dir.len() == 0 || dir.last() == '/' {
            dir + name
        } else {
            dir + seq!['/'] + name
        }),
{
    let j = joined(dir, name);
    assert(j.take(dir.len() as int) =~= dir);
}

/// What lies inside a directory lies inside every directory around it.
pub proof fn below_is_transitive(a: Seq<char>, b: Seq<char>, x: Seq<char>)
    requires
        below(a, b),
        at_or_below(b, x),
    ensures
        below(a, x),
{
    if x != b {
        assert(x.take(a.len() as int) =~= b.take(a.len() as int));
    }
}

/// Two entries of one directory with different names share no path: nothing
/// is at or inside both.
pub proof fn siblings_are_apart(dir: Seq<char>, n1: Seq<char>, n2: Seq<char>, x: Seq<char>)
    requires
        is_component(n1),
        is_component(n2),
        n1 != n2,
        at_or_below(joined(dir, n1), x),
    ensures
        !at_or_below(joined(dir, n2), x),
{
    let b1 = joined(dir, n1);
    let b2 = joined(dir, n2);
    joined_is_below(dir, n1);
    joined_is_below(dir, n2);
    let d: int = b1.len() - n1.len();
    if at_or_below(b2, x) {
        assert(forall|i: int| 0 <= i < b1.len() ==> x[i] == b1[i]);
        assert(forall|i: int| 0 <= i < b2.len() ==> x[i] == b2[i]);
        assert(forall|i: int| 0 <= i < n1.len() ==> b1[d + i] == n1[i]);
        if n1.len() == n2.len() {
            assert(n1 =~= n2);
        }
    }
}

/// A name keeps its class whatever order the suffixes are tried in: each
/// class is the set of names with its own suffix, no name has the suffixes of
/// two classes, and a name without any of them is unknown.
pub proof fn classification_is_exclusive(p: Seq<char>)
    ensures
        classify(p) == ArtifactClass::PlainFile <==> ends_with(p, plain_file_suffix()),
        classify(p) == ArtifactClass::PlainDir <==> ends_with(p, plain_dir_suffix()),
        classify(p) == ArtifactClass::Archive <==> ends_with(p, archive_suffix()) || ends_with(
            p,
            archive_suffix_short(),
        ),
        classify(p) == ArtifactClass::Unknown <==> !ends_with(p, plain_file_suffix())
            && !ends_with(p, plain_dir_suffix()) && !ends_with(p, archive_suffix())
            && !ends_with(p, archive_suffix_short()),
{
}

/// An artifact named by appending one of the suffixes that backup uses is
/// recognised by that suffix, and taking the suffix off gives back the source
/// path without what counts for nothing at its end, with the same final
/// component.
pub proof fn suffix_round_trip(path: Seq<char>, suffix: Seq<char>)
    requires
        suffix == plain_file_suffix() || suffix == plain_dir_suffix() || suffix
            == archive_suffix(),
        with_suffix(path, suffix) is Some,
    ensures
        matched_suffix(with_suffix(path, suffix)->0) == Some(suffix),
        without_suffix(with_suffix(path, suffix)->0) == Some(trim_end(path)),
        source_name(with_suffix(path, suffix)->0) == final_component(path),
{
    let stem = trim_end(path);
    let artifact = stem + suffix;
    assert(artifact.subrange(artifact.len() - suffix.len(), artifact.len() as int) =~= suffix);
    classification_is_exclusive(artifact);
    assert(artifact.take(artifact.len() - suffix.len()) =~= stem);
    trim_is_idempotent(path);
}

/// The kind of entry that the artifact of a backup is on disk: a mirror is
/// a directory, a copy and an archive are files.
pub open spec fn artifact_kind(directory: bool, compress: bool) -> EntryKind {
    if directory && !compress {
        EntryKind::Directory
    } else {
        EntryKind::File
    }
}

/// Restore undoes the naming of backup. Whatever source with a final
/// component is backed up, with or without compression, the artifact's name
/// is recognised on restore as the format that was written, and the restore
/// into any existing directory reads that artifact and addresses the source
/// by its own name inside the directory: a plain copy or mirror is copied
/// back to that name, and an archive, which holds the source under that name,
/// is unpacked into the directory.
pub proof fn restore_inverts_backup(
    path: Seq<char>,
    directory: bool,
    compress: bool,
    output_dir: Seq<char>,
)
    requires
        final_component(path) is Some,
    ensures
        ({
            let name = final_component(path)->0;
            &&& backup_plan(path, kind_of_source(directory), compress) matches Ok(action)
            &&& restore_plan(
                written_path(action),
                artifact_kind(directory, compress),
                output_dir,
                EntryKind::Directory,
            ) matches Ok(back)
            &&& match action {
                ActionView::CopyFile { from, to } => !directory && !compress && from == path
                    && back == (ActionView::CopyFile { from: to, to: joined(output_dir, name) }),
                ActionView::MirrorTree { from, to } => directory && !compress && from == path
                    && back == (ActionView::MirrorTree { from: to, to: joined(output_dir, name) }),
                ActionView::Pack { archive, entry } => compress && back == (ActionView::Unpack {
                    archive,
                    into: output_dir,
                }) && entry == (if directory {
                    ArchiveEntryView::Tree { name, path }
                } else {
                    ArchiveEntryView::File { name, path }
                }),
                ActionView::Unpack { .. } => false,
            }
        }),
{
    let suffix = if compress {
        archive_suffix()
    } else if directory {
        plain_dir_suffix()
    } else {
        plain_file_suffix()
    };
    suffix_round_trip(path, suffix);
    classification_is_exclusive(trim_end(path) + suffix);
}

/// A backup writes beside its source: the artifact is not the source and
/// does not lie inside it, nor the source inside the artifact.
pub proof fn artifact_lies_beside_source(path: Seq<char>, directory: bool, compress: bool)
    requires
        final_component(path) is Some,
    ensures
        backup_plan(path, kind_of_source(directory), compress) matches Ok(action) && !at_or_below(
            path,
            written_path(action),
        ) && !at_or_below(written_path(action), path),
{
    let stem = trim_end(path);
    let suffix = if compress {
        archive_suffix()
    } else if directory {
        plain_dir_suffix()
    } else {
        plain_file_suffix()
    };
    let artifact = stem + suffix;
    trim_end_cuts_at_separator(path);
    assert(artifact[stem.len() as int] == '.');
}

/// A file backed up without compression and restored comes back byte for
/// byte under its own name.
///
/// Take a file that is in the store `s` under a path with a final component,
/// and carry out the backup's copy. Let `later` be any store that still holds
/// the copy as it was made; the source may be gone from it. Carry out over
/// `later` the copy that restore plans into any existing directory. Then the
/// file named like the source inside that directory holds the bytes that the
/// source held.
pub proof fn file_round_trip(path: Seq<char>, output_dir: Seq<char>, s: Store, later: Store)
    requires
        final_component(path) is Some,
        s.files.contains_key(path),
        same_file(
            later,
            copied(path, trim_end(path) + plain_file_suffix(), s),
            trim_end(path) + plain_file_suffix(),
        ),
    ensures
        ({
            let artifact = trim_end(path) + plain_file_suffix();
            let back = joined(output_dir, final_component(path)->0);
            let restored = copied(artifact, back, later);
            &&& backup_plan(path, EntryKind::File, false) == Ok::<ActionView, Error>(
                ActionView::CopyFile { from: path, to: artifact },
            )
            &&& restore_plan(artifact, EntryKind::File, output_dir, EntryKind::Directory) == Ok::<
                ActionView,
                Error,
            >(ActionView::CopyFile { from: artifact, to: back })
            &&& restored.files.contains_key(back)
            &&& restored.files[back] == s.files[path]
        }),
{
    restore_inverts_backup(path, false, false, output_dir);
}

/// Restore checks before it plans. Without an existing output directory, or
/// without the artifact, the answer is `NotFound`; with both, an artifact
/// whose suffix promises a file and that is a directory, or the reverse, is
/// an `InvalidArtifact`, and one without a known suffix is an
/// `UnrecognizedFormat`. In each of these cases no action is planned, so
/// nothing is written.
pub proof fn restore_checks_first(
    artifact: Seq<char>,
    artifact_kind: EntryKind,
    output_dir: Seq<char>,
    output_kind: EntryKind,
)
    ensures
        output_kind != EntryKind::Directory || artifact_kind == EntryKind::Missing
            <==> restore_plan(
            artifact,
            artifact_kind,
            output_dir,
            output_kind,
        ) == Err::<ActionView, Error>(Error::NotFound),
        output_kind == EntryKind::Directory && artifact_kind != EntryKind::Missing && classify(
            artifact,
        ) == ArtifactClass::Unknown <==> restore_plan(
            artifact,
            artifact_kind,
            output_dir,
            output_kind,
        ) == Err::<ActionView, Error>(Error::UnrecognizedFormat),
        output_kind == EntryKind::Directory && artifact_kind != EntryKind::Missing && (classify(
            artifact,
        ) == ArtifactClass::PlainDir && artifact_kind != EntryKind::Directory || (classify(artifact)
            == ArtifactClass::PlainFile || classify(artifact) == ArtifactClass::Archive)
            && artifact_kind != EntryKind::File) <==> restore_plan(
            artifact,
            artifact_kind,
            output_dir,
            output_kind,
        ) == Err::<ActionView, Error>(Error::InvalidArtifact),
{
}

/// Where removal ends up with the answer `answer`, which counts only where
/// the restore has left the question open.
pub open spec fn settled_decision(
    restored: bool,
    delete: bool,
    preconfirmed: bool,
    answer: Answer,
) -> Decision {
    if decision_after_restore(restored, delete, preconfirmed) == Decision::Ask {
        decision_after_answer(answer)
    } else {
        decision_after_restore(restored, delete, preconfirmed)
    }
}

/// Removal needs a successful restore, the delete flag, and consent. With an
/// answer of yes or no in hand, the artifact is removed exactly when the
/// restore succeeded, deletion was asked for, and consent was given
/// beforehand or the answer is yes; in every other case it is kept. The user
/// is asked only where the answer decides.
pub proof fn removal_needs_consent(
    restored: bool,
    delete: bool,
    preconfirmed: bool,
    answer: Answer,
)
    requires
        answer != Answer::Unrecognized,
    ensures
        settled_decision(restored, delete, preconfirmed, answer) == Decision::Remove <==> restored
            && delete && (preconfirmed || answer == Answer::Yes),
        settled_decision(restored, delete, preconfirmed, answer) == Decision::Keep <==> !(restored
            && delete && (preconfirmed || answer == Answer::Yes)),
        decision_after_restore(restored, delete, preconfirmed) == Decision::Ask <==> restored
            && delete && !preconfirmed,
{
}

} // verus!
