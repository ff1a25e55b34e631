//! What the steps of the archive codec do, told over an idealised disk: the
//! store of files and directories, and beside it what each archive holds.
//!
//! An archive holds a small store of its own, keyed by the names of its
//! members. The bytes that stand for it on a real disk are the business of
//! the archive and compression layers and have no place here.

use vstd::prelude::*;
use crate::action::ActionView;
use crate::backup::backup_plan;
use crate::codec::{
    append_step, decode_steps, encode_steps, stream_after, ArchiveEntryView, CodecStepView,
    Stream,
};
use crate::error::Error;
use crate::kind::EntryKind;
use crate::laws::{final_component_ends_path, restore_inverts_backup};
use crate::model::{leads_to, Store};
use crate::path::{archive_suffix, below, final_component, is_component, joined, trim_end};
use crate::restore::restore_plan;

verus! {

/// The store, and what each archive holds, by the archive's path.
pub ghost struct Disk {
    pub store: Store,
    pub archives: Map<Seq<char>, Store>,
}

/// The archive stream between two steps, with what has gone through it.
pub ghost enum Wire {
    Closed,
    Writing { archive: Seq<char>, holds: Store },
    Compressing { archive: Seq<char>, holds: Store },
    Reading { holds: Store },
}

/// A run of the codec at some point: the disk and the stream.
pub ghost struct Run {
    pub disk: Disk,
    pub wire: Wire,
}

/// A run that has not begun: the disk as it is and no stream open.
pub open spec fn at_rest(disk: Disk) -> Run {
    Run { disk, wire: Wire::Closed }
}

/// An archive that holds nothing.
pub open spec fn nothing() -> Store {
    Store { files: Map::empty(), dirs: Set::empty() }
}

/// `r` names something from inside a directory: it is not empty and does
/// not start at the root.
pub open spec fn is_relative(r: Seq<char>) -> bool {
    r.len() > 0 && r[0] != '/'
}

/// What `holds` holds once the file at `path` is appended under `name`.
pub open spec fn with_file(holds: Store, name: Seq<char>, path: Seq<char>, store: Store) -> Store {
    if store.files.contains_key(path) {
        Store { files: holds.files.insert(name, store.files[path]), dirs: holds.dirs }
    } else {
        holds
    }
}

/// How much of a path inside the directory `into` is `into` and its
/// separator.
pub open spec fn lead(into: Seq<char>) -> int {
    if into.len() == 0 || into.last() == '/' {
        into.len() as int
    } else {
        into.len() as int + 1
    }
}

/// What `target` is called from inside the directory `into`: the text behind
/// `into` and its separator.
pub open spec fn member_at(into: Seq<char>, target: Seq<char>) -> Seq<char> {
    target.skip(lead(into))
}

/// `target` is the path of something inside the directory `into`, reached by
/// a name from inside.
pub open spec fn is_landing(into: Seq<char>, target: Seq<char>) -> bool {
    &&& target.len() > lead(into)
    &&& is_relative(member_at(into, target))
    &&& target == joined(into, member_at(into, target))
}

/// `member` is a file of the tree at `path`, archived under the root `name`.
pub open spec fn is_tree_file(
    name: Seq<char>,
    path: Seq<char>,
    store: Store,
    member: Seq<char>,
) -> bool {
    is_landing(name, member) && store.files.contains_key(joined(path, member_at(name, member)))
}

/// What `holds` holds once the directory at `path`, with all below it, is
/// appended with `name` as its root: the root itself, and under the root's
/// name every file and directory that the store has inside `path`. With an
/// empty `name` the members go by their names from inside `path` alone.
pub open spec fn with_tree(holds: Store, name: Seq<char>, path: Seq<char>, store: Store) -> Store {
    Store {
        files: Map::new(
            |m: Seq<char>| holds.files.contains_key(m) || is_tree_file(name, path, store, m),
            |m: Seq<char>|
                if is_tree_file(name, path, store, m) {
                    store.files[joined(path, member_at(name, m))]
                } else {
                    holds.files[m]
                },
        ),
        dirs: Set::new(
            |m: Seq<char>|
                holds.dirs.contains(m) || m == name || (is_landing(name, m) && store.dirs.contains(
                    joined(path, member_at(name, m)),
                )),
        ),
    }
}

/// `target` is where unpacking `holds` into `into` puts a file.
pub open spec fn is_unpacked_file(into: Seq<char>, holds: Store, target: Seq<char>) -> bool {
    is_landing(into, target) && holds.files.contains_key(member_at(into, target))
}

/// Unpacking `holds` into `into` makes `dir` a directory: it is, or lies
/// above, the place of a directory in the archive, or lies above the place
/// of a file in it.
pub open spec fn is_unpacked_dir(into: Seq<char>, holds: Store, dir: Seq<char>) -> bool {
    ||| exists|m: Seq<char>|
        #[trigger] holds.dirs.contains(m) && is_relative(m) && leads_to(dir, joined(into, m))
    ||| exists|m: Seq<char>|
        #[trigger] holds.files.contains_key(m) && is_relative(m) && dir.len() > 0 && below(
            dir,
            joined(into, m),
        )
}

/// The store once `holds` is unpacked into `into`: every member that is
/// named from inside lands under `into` by its name, a file with its bytes
/// in place of what was there, and nothing else changes.
pub open spec fn unpacked(into: Seq<char>, holds: Store, store: Store) -> Store {
    Store {
        files: Map::new(
            |t: Seq<char>| store.files.contains_key(t) || is_unpacked_file(into, holds, t),
            |t: Seq<char>|
                if is_unpacked_file(into, holds, t) {
                    holds.files[member_at(into, t)]
                } else {
                    store.files[t]
                },
        ),
        dirs: Set::new(
            |dir: Seq<char>| store.dirs.contains(dir) || is_unpacked_dir(into, holds, dir),
        ),
    }
}

/// The run after `step` has succeeded. A step that has no place where the
/// stream stands changes nothing. An archive shows on the disk only once
/// its compressed frame is finished.
pub open spec fn carry(step: CodecStepView, r: Run) -> Run {
    match (step, r.wire) {
        (CodecStepView::Create { archive }, Wire::Closed) => Run {
            disk: r.disk,
            wire: Wire::Writing { archive, holds: nothing() },
        },
        (CodecStepView::AppendFile { name, path }, Wire::Writing { archive, holds }) => Run {
            disk: r.disk,
            wire: Wire::Writing { archive, holds: with_file(holds, name, path, r.disk.store) },
        },
        (CodecStepView::AppendTree { name, path }, Wire::Writing { archive, holds }) => Run {
            disk: r.disk,
            wire: Wire::Writing { archive, holds: with_tree(holds, name, path, r.disk.store) },
        },
        (CodecStepView::FinishArchive, Wire::Writing { archive, holds }) => Run {
            disk: r.disk,
            wire: Wire::Compressing { archive, holds },
        },
        (CodecStepView::FinishCompressor, Wire::Compressing { archive, holds }) => Run {
            disk: Disk { store: r.disk.store, archives: r.disk.archives.insert(archive, holds) },
            wire: Wire::Closed,
        },
        (CodecStepView::Open { archive }, Wire::Closed) => if r.disk.archives.contains_key(
            archive,
        ) {
            Run { disk: r.disk, wire: Wire::Reading { holds: r.disk.archives[archive] } }
        } else {
            r
        },
        (CodecStepView::Unpack { into }, Wire::Reading { holds }) => Run {
            disk: Disk {
                store: unpacked(into, holds, r.disk.store),
                archives: r.disk.archives,
            },
            wire: Wire::Closed,
        },
        _ => r,
    }
}

/// Where the stream of a run stands, its contents aside.
pub open spec fn stream_of(wire: Wire) -> Stream {
    match wire {
        Wire::Closed => Stream::Closed,
        Wire::Writing { .. } => Stream::Writing,
        Wire::Compressing { .. } => Stream::Compressing,
        Wire::Reading { .. } => Stream::Reading,
    }
}

/// A step that has its place moves the stream of a run as the codec says,
/// provided that an archive to be opened is on the disk.
pub proof fn carry_moves_the_stream(step: CodecStepView, r: Run)
    requires
        stream_after(stream_of(r.wire), step) is Some,
        (step matches CodecStepView::Open { archive } ==> r.disk.archives.contains_key(archive)),
    ensures
        Some(stream_of(carry(step, r).wire)) == stream_after(stream_of(r.wire), step),
{
}

/// The run after `steps`, taken one after the other.
pub open spec fn carry_all(steps: Seq<CodecStepView>, r: Run) -> Run
    decreases steps.len(),
{
    if steps.len() == 0 {
        r
    } else {
        carry(steps.last(), carry_all(steps.drop_last(), r))
    }
}

/// What the archive at `archive` holds once `entry` is written into it from
/// the disk `disk`.
pub open spec fn archived(archive: Seq<char>, entry: ArchiveEntryView, disk: Disk) -> Store {
    carry_all(encode_steps(archive, seq![entry]), at_rest(disk)).disk.archives[archive]
}

/// The store once the archive at `archive` is unpacked into `into` on the
/// disk `disk`.
pub open spec fn restored(archive: Seq<char>, into: Seq<char>, disk: Disk) -> Store {
    carry_all(decode_steps(archive, into), at_rest(disk)).disk.store
}

/// Writing one entry into a new archive leaves on the disk an archive that
/// holds that entry and nothing else, and leaves the store as it was.
pub proof fn encoding_archives_the_entry(archive: Seq<char>, entry: ArchiveEntryView, disk: Disk)
    ensures
        ({
            let after = carry_all(encode_steps(archive, seq![entry]), at_rest(disk));
            &&& after.wire is Closed
            &&& after.disk.store == disk.store
            &&& after.disk.archives.contains_key(archive)
            &&& after.disk.archives[archive] == match entry {
                ArchiveEntryView::File { name, path } => with_file(
                    nothing(),
                    name,
                    path,
                    disk.store,
                ),
                ArchiveEntryView::Tree { name, path } => with_tree(
                    nothing(),
                    name,
                    path,
                    disk.store,
                ),
            }
        }),
{
    let steps = encode_steps(archive, seq![entry]);
    let all = seq![
        CodecStepView::Create { archive },
        append_step(entry),
        CodecStepView::FinishArchive,
        CodecStepView::FinishCompressor,
    ];
    assert(steps =~= all);
    let three = all.drop_last();
    let two = three.drop_last();
    let one = two.drop_last();
    assert(three =~= seq![
        CodecStepView::Create { archive },
        append_step(entry),
        CodecStepView::FinishArchive,
    ]);
    assert(two =~= seq![CodecStepView::Create { archive }, append_step(entry)]);
    assert(one =~= seq![CodecStepView::Create { archive }]);
    assert(one.drop_last() =~= Seq::<CodecStepView>::empty());
    reveal_with_fuel(carry_all, 5);
    let r0 = at_rest(disk);
    assert(carry_all(one.drop_last(), r0) == r0);
    assert(carry_all(one, r0) == carry(one.last(), r0));
    assert(carry_all(two, r0) == carry(two.last(), carry_all(one, r0)));
    assert(carry_all(three, r0) == carry(three.last(), carry_all(two, r0)));
    assert(carry_all(all, r0) == carry(all.last(), carry_all(three, r0)));
}

/// Unpacking an archive that is on the disk leaves the store that unpacking
/// what it holds gives.
pub proof fn decoding_unpacks_the_archive(archive: Seq<char>, into: Seq<char>, disk: Disk)
    requires
        disk.archives.contains_key(archive),
    ensures
        carry_all(decode_steps(archive, into), at_rest(disk)).wire is Closed,
        restored(archive, into, disk) == unpacked(into, disk.archives[archive], disk.store),
{
    let steps = decode_steps(archive, into);
    let one = steps.drop_last();
    assert(one =~= seq![CodecStepView::Open { archive }]);
    assert(one.drop_last() =~= Seq::<CodecStepView>::empty());
    reveal_with_fuel(carry_all, 3);
    let r0 = at_rest(disk);
    assert(carry_all(one.drop_last(), r0) == r0);
    assert(carry_all(one, r0) == carry(one.last(), r0));
    assert(carry_all(steps, r0) == carry(steps.last(), carry_all(one, r0)));
}

/// A name from inside, joined to a directory, gives a path inside it that
/// goes by that name again.
pub proof fn member_lands_at_its_name(into: Seq<char>, member: Seq<char>)
    requires
        is_relative(member),
    ensures
        is_landing(into, joined(into, member)),
        member_at(into, joined(into, member)) == member,
{
    let t = joined(into, member);
    assert(t.skip(lead(into)) =~= member);
}

/// Joining a name inside a tree to the tree's root, and the root to a
/// directory, gives the same path whichever is done first.
pub proof fn joining_is_associative(dir: Seq<char>, name: Seq<char>, r: Seq<char>)
    requires
        is_component(name),
        is_relative(r),
    ensures
        is_relative(joined(name, r)),
        joined(dir, joined(name, r)) == joined(joined(dir, name), r),
{
    let m = name + seq!['/'] + r;
    assert(name[0] != '/');
    assert(name[name.len() - 1] != '/');
    assert(m[0] == name[0]);
    assert(joined(dir, m) =~= joined(joined(dir, name), r));
}

/// The archive entry that the backup of the file `path` writes.
pub open spec fn file_entry(path: Seq<char>) -> ArchiveEntryView {
    ArchiveEntryView::File { name: final_component(path)->0, path }
}

/// The archive entry that the backup of the directory `path` writes.
pub open spec fn tree_entry(path: Seq<char>) -> ArchiveEntryView {
    ArchiveEntryView::Tree { name: final_component(path)->0, path }
}

/// The path of the archive that the backup of `path` writes.
pub open spec fn archive_of(path: Seq<char>) -> Seq<char> {
    trim_end(path) + archive_suffix()
}

/// A file backed up with compression and restored comes back byte for byte
/// under its own name, and nothing else is written.
///
/// Take a file that is in the store under a path with a final component, and
/// carry out the steps that write the archive planned for it. Let `later` be
/// any disk that still has that archive as it was written; the source may be
/// gone from it. Carry out over `later` the steps that read the archive into
/// the directory that restore unpacks into. Then the file named like the
/// source inside that directory holds the bytes that the source held, and
/// every other file is as it was.
pub proof fn packed_file_round_trip(
    path: Seq<char>,
    output_dir: Seq<char>,
    disk: Disk,
    later: Disk,
)
    requires
        final_component(path) is Some,
        disk.store.files.contains_key(path),
        later.archives.contains_key(archive_of(path)),
        later.archives[archive_of(path)] == archived(archive_of(path), file_entry(path), disk),
    ensures
        ({
            let back = joined(output_dir, final_component(path)->0);
            let after = restored(archive_of(path), output_dir, later);
            &&& backup_plan(path, EntryKind::File, true) == Ok::<ActionView, Error>(
                ActionView::Pack { archive: archive_of(path), entry: file_entry(path) },
            )
            &&& restore_plan(archive_of(path), EntryKind::File, output_dir, EntryKind::Directory)
                == Ok::<ActionView, Error>(
                ActionView::Unpack { archive: archive_of(path), into: output_dir },
            )
            &&& after.files.contains_key(back)
            &&& after.files[back] == disk.store.files[path]
            &&& forall|t: Seq<char>|
                t != back ==> (#[trigger] after.files.contains_key(t)
                    == later.store.files.contains_key(t)) && (after.files.contains_key(t)
                    ==> after.files[t] == later.store.files[t])
        }),
{
    let name = final_component(path)->0;
    let archive = archive_of(path);
    restore_inverts_backup(path, false, true, output_dir);
    final_component_ends_path(path);
    encoding_archives_the_entry(archive, file_entry(path), disk);
    decoding_unpacks_the_archive(archive, output_dir, later);
    assert(is_relative(name));
    member_lands_at_its_name(output_dir, name);
}

/// A directory backed up with compression and restored comes back whole
/// under its own name, and nothing is put there that the source lacked.
///
/// Take a directory under a path with a final component, and carry out the
/// steps that write the archive planned for it. Let `later` be any disk that
/// still has that archive as it was written. Carry out over `later` the
/// steps that read the archive into the directory that restore unpacks into.
/// Then the directory named like the source exists inside that directory,
/// and for every name `r` from inside the source: a file there holds, under
/// the same name inside the restored directory, the bytes that it held; a
/// directory there, empty or not, exists under the same name; and a file
/// that the restored directory has under `r`, and did not have before, is
/// one that the source had.
pub proof fn packed_tree_round_trip(
    path: Seq<char>,
    output_dir: Seq<char>,
    disk: Disk,
    later: Disk,
    r: Seq<char>,
)
    requires
        final_component(path) is Some,
        is_relative(r),
        later.archives.contains_key(archive_of(path)),
        later.archives[archive_of(path)] == archived(archive_of(path), tree_entry(path), disk),
    ensures
        ({
            let root = joined(output_dir, final_component(path)->0);
            let after = restored(archive_of(path), output_dir, later);
            &&& backup_plan(path, EntryKind::Directory, true) == Ok::<ActionView, Error>(
                ActionView::Pack { archive: archive_of(path), entry: tree_entry(path) },
            )
            &&& restore_plan(archive_of(path), EntryKind::File, output_dir, EntryKind::Directory)
                == Ok::<ActionView, Error>(
                ActionView::Unpack { archive: archive_of(path), into: output_dir },
            )
            &&& after.dirs.contains(root)
            &&& disk.store.files.contains_key(joined(path, r)) ==> after.files.contains_key(
                joined(root, r),
            ) && after.files[joined(root, r)] == disk.store.files[joined(path, r)]
            &&& disk.store.dirs.contains(joined(path, r)) ==> after.dirs.contains(joined(root, r))
            &&& after.files.contains_key(joined(root, r)) && !later.store.files.contains_key(
                joined(root, r),
            ) ==> disk.store.files.contains_key(joined(path, r))
        }),
{
    let name = final_component(path)->0;
    let archive = archive_of(path);
    let root = joined(output_dir, name);
    let member = joined(name, r);
    let holds = later.archives[archive];
    restore_inverts_backup(path, true, true, output_dir);
    final_component_ends_path(path);
    encoding_archives_the_entry(archive, tree_entry(path), disk);
    decoding_unpacks_the_archive(archive, output_dir, later);
    joining_is_associative(output_dir, name, r);
    assert(is_relative(name));
    member_lands_at_its_name(name, r);
    member_lands_at_its_name(output_dir, name);
    member_lands_at_its_name(output_dir, member);
    assert(holds.dirs.contains(name) && leads_to(root, joined(output_dir, name)));
    if disk.store.dirs.contains(joined(path, r)) {
        assert(holds.dirs.contains(member) && leads_to(
            joined(root, r),
            joined(output_dir, member),
        ));
    }
}

} // verus!
