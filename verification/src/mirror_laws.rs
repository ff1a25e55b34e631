//! What holds of mirroring plans: where they read and write, that no file
//! is written twice, and what carrying them out leaves in the store.

use vstd::prelude::*;
use crate::laws::{
    below_is_transitive, joined_is_below, siblings_are_apart, trim_end_cuts_at_separator,
};
use crate::mirror::{
    entries_paths, entries_steps, entries_visits, entry_paths, entry_steps, entry_visits,
    entry_well_formed, mirror_steps, step_for, tree_paths, tree_visits, well_formed, Entry,
    MirrorStepView, Node, Visit,
};
use crate::model::{
    every_step_lands, leads_to, reads_apart_from_writes, rerun_changes_nothing, run,
    run_leaves_unwritten, same_file, sources_present, writes, writes_apart, Store,
};
use crate::path::{
    at_or_below, below, final_component, joined, last_segment, plain_dir_suffix, trim_end,
};

verus! {

/// Every path that `step` touches lies inside `src`, where it reads, and
/// inside `dst`, where it writes.
pub open spec fn step_below(src: Seq<char>, dst: Seq<char>, step: MirrorStepView) -> bool {
    match step {
        MirrorStepView::CreateDirAll(p) => below(dst, p),
        MirrorStepView::CopyFile { from, to } => below(src, from) && below(dst, to),
        MirrorStepView::Skip(p) => below(src, p),
    }
}

/// Every path that `step` touches is `src` or inside it, where it reads, and
/// `dst` or inside it, where it writes.
pub open spec fn step_within(src: Seq<char>, dst: Seq<char>, step: MirrorStepView) -> bool {
    match step {
        MirrorStepView::CreateDirAll(p) => at_or_below(dst, p),
        MirrorStepView::CopyFile { from, to } => at_or_below(src, from) && at_or_below(dst, to),
        MirrorStepView::Skip(p) => at_or_below(src, p),
    }
}

/// A listing without its last entry is still well formed.
proof fn well_formed_without_last(entries: Seq<Entry>)
    requires
        well_formed(entries),
        entries.len() > 0,
    ensures
        well_formed(entries.drop_last()),
        entry_well_formed(entries.last()),
{
}

/// The steps for one entry stay at or inside the entry's own path, on the
/// source side and on the destination side.
pub proof fn entry_steps_stay_within(src: Seq<char>, dst: Seq<char>, entry: Entry)
    requires
        entry_well_formed(entry),
    ensures
        forall|k: int|
            0 <= k < entry_steps(src, dst, entry).len() ==> step_within(
                joined(src, entry.name@),
                joined(dst, entry.name@),
                #[trigger] entry_steps(src, dst, entry)[k],
            ),
    decreases entry,
{
    let from = joined(src, entry.name@);
    let to = joined(dst, entry.name@);
    match entry.node {
        Node::Directory(children) => {
            mirror_steps_stay_below(from, to, children@);
        },
        _ => {},
    }
}

/// Each step for the entries of a directory stays at or inside the path of
/// one of those entries.
pub proof fn entries_steps_stay_within(src: Seq<char>, dst: Seq<char>, entries: Seq<Entry>)
    requires
        well_formed(entries),
    ensures
        forall|k: int|
            0 <= k < entries_steps(src, dst, entries).len() ==> exists|i: int|
                0 <= i < entries.len() && step_within(
                    joined(src, (#[trigger] entries[i]).name@),
                    joined(dst, entries[i].name@),
                    #[trigger] entries_steps(src, dst, entries)[k],
                ),
    decreases entries, 0int,
{
    if entries.len() > 0 {
        let init = entries.drop_last();
        let last = entries.last();
        well_formed_without_last(entries);
        entries_steps_stay_within(src, dst, init);
        entry_steps_stay_within(src, dst, last);
        assert(entries_steps(src, dst, entries) == entries_steps(src, dst, init) + entry_steps(
            src,
            dst,
            last,
        ));
    }
}

/// Mirroring a directory reads inside the source only and, once the
/// destination is created, writes inside the destination only.
pub proof fn mirror_steps_stay_below(src: Seq<char>, dst: Seq<char>, entries: Seq<Entry>)
    requires
        well_formed(entries),
    ensures
        mirror_steps(src, dst, entries)[0] == MirrorStepView::CreateDirAll(dst),
        forall|k: int|
            0 <= k < entries_steps(src, dst, entries).len() ==> step_below(
                src,
                dst,
                #[trigger] entries_steps(src, dst, entries)[k],
            ),
        forall|k: int|
            1 <= k < mirror_steps(src, dst, entries).len() ==> step_below(
                src,
                dst,
                #[trigger] mirror_steps(src, dst, entries)[k],
            ),
    decreases entries, 1int,
{
    entries_steps_stay_within(src, dst, entries);
    let inner = entries_steps(src, dst, entries);
    assert forall|k: int| 0 <= k < inner.len() implies step_below(
        src,
        dst,
        #[trigger] inner[k],
    ) by {
        let i = choose|i: int|
            0 <= i < entries.len() && step_within(
                joined(src, (#[trigger] entries[i]).name@),
                joined(dst, entries[i].name@),
                inner[k],
            );
        let name = entries[i].name@;
        joined_is_below(src, name);
        joined_is_below(dst, name);
        match inner[k] {
            MirrorStepView::CreateDirAll(p) => {
                below_is_transitive(dst, joined(dst, name), p);
            },
            MirrorStepView::CopyFile { from, to } => {
                below_is_transitive(src, joined(src, name), from);
                below_is_transitive(dst, joined(dst, name), to);
            },
            MirrorStepView::Skip(p) => {
                below_is_transitive(src, joined(src, name), p);
            },
        }
    }
}

/// The steps for one well-formed entry write no file twice.
pub proof fn entry_writes_apart(src: Seq<char>, dst: Seq<char>, entry: Entry)
    requires
        entry_well_formed(entry),
    ensures
        writes_apart(entry_steps(src, dst, entry)),
    decreases entry,
{
    match entry.node {
        Node::Directory(children) => {
            mirror_writes_apart(joined(src, entry.name@), joined(dst, entry.name@), children@);
        },
        _ => {},
    }
}

/// The steps for the entries of a well-formed listing write no file twice.
pub proof fn entries_write_apart(src: Seq<char>, dst: Seq<char>, entries: Seq<Entry>)
    requires
        well_formed(entries),
    ensures
        writes_apart(entries_steps(src, dst, entries)),
    decreases entries, 0int,
{
    if entries.len() > 0 {
        let init = entries.drop_last();
        let last = entries.last();
        well_formed_without_last(entries);
        entries_write_apart(src, dst, init);
        entry_writes_apart(src, dst, last);
        entries_steps_stay_within(src, dst, init);
        entry_steps_stay_within(src, dst, last);
        let head = entries_steps(src, dst, init);
        let all = entries_steps(src, dst, entries);
        assert(all == head + entry_steps(src, dst, last));
        assert forall|a: int, b: int|
            0 <= a < b < all.len() && (#[trigger] all[a]) is CopyFile && (#[trigger] all[b])
                is CopyFile implies all[a]->to != all[b]->to by {
            if a < head.len() <= b {
                let i = choose|i: int|
                    0 <= i < init.len() && step_within(
                        joined(src, (#[trigger] init[i]).name@),
                        joined(dst, init[i].name@),
                        head[a],
                    );
                siblings_are_apart(dst, init[i].name@, last.name@, all[a]->to);
            }
        }
    }
}

/// The plan that mirrors a well-formed listing writes no file twice.
pub proof fn mirror_writes_apart(src: Seq<char>, dst: Seq<char>, entries: Seq<Entry>)
    requires
        well_formed(entries),
    ensures
        writes_apart(mirror_steps(src, dst, entries)),
    decreases entries, 1int,
{
    entries_write_apart(src, dst, entries);
}

/// The mirror that a backup plans never writes what it reads: the artifact
/// lies beside the source, not inside it, and the source not inside the
/// artifact.
pub proof fn backup_mirror_reads_apart(path: Seq<char>, entries: Seq<Entry>)
    requires
        final_component(path) is Some,
        well_formed(entries),
    ensures
        reads_apart_from_writes(
            mirror_steps(path, trim_end(path) + plain_dir_suffix(), entries),
        ),
{
    let stem = trim_end(path);
    let dst = stem + plain_dir_suffix();
    let all = mirror_steps(path, dst, entries);
    let cut: int = stem.len() as int;
    trim_end_cuts_at_separator(path);
    mirror_steps_stay_below(path, dst, entries);
    assert forall|i: int, j: int|
        0 <= i < all.len() && 0 <= j < all.len() && (#[trigger] all[i]) is CopyFile && (
        #[trigger] all[j]) is CopyFile implies all[i]->from != all[j]->to by {
        let from = all[i]->from;
        let to = all[j]->to;
        assert(to[cut] == '.') by {
            assert(to.take(dst.len() as int)[cut] == dst[cut]);
        }
    }
}

/// A backup leaves its source alone: carrying out the mirror that a backup
/// plans changes no file that is at the source's path or inside the source.
pub proof fn backup_mirror_leaves_source_alone(
    path: Seq<char>,
    entries: Seq<Entry>,
    s: Store,
    p: Seq<char>,
)
    requires
        final_component(path) is Some,
        well_formed(entries),
        at_or_below(path, p),
    ensures
        same_file(
            run(mirror_steps(path, trim_end(path) + plain_dir_suffix(), entries), s),
            s,
            p,
        ),
{
    let stem = trim_end(path);
    let dst = stem + plain_dir_suffix();
    let all = mirror_steps(path, dst, entries);
    let cut: int = stem.len() as int;
    trim_end_cuts_at_separator(path);
    mirror_steps_stay_below(path, dst, entries);
    if writes(all, p) {
        let k = choose|k: int|
            0 <= k < all.len() && (#[trigger] all[k]) is CopyFile && all[k]->to == p;
        assert(p.take(dst.len() as int)[cut] == dst[cut]);
    }
    run_leaves_unwritten(all, s, p);
}

/// Mirroring a directory as its backup twice leaves what mirroring it once
/// leaves: the same bytes in every file and the same directories, whatever
/// the store held before, provided that the listing is well formed and
/// every file in it is there to be read.
pub proof fn backup_mirror_is_idempotent(path: Seq<char>, entries: Seq<Entry>, s: Store)
    requires
        final_component(path) is Some,
        well_formed(entries),
        sources_present(
            mirror_steps(path, trim_end(path) + plain_dir_suffix(), entries),
            s,
        ),
    ensures
        ({
            let plan = mirror_steps(path, trim_end(path) + plain_dir_suffix(), entries);
            run(plan, run(plan, s)) == run(plan, s)
        }),
{
    let plan = mirror_steps(path, trim_end(path) + plain_dir_suffix(), entries);
    backup_mirror_reads_apart(path, entries);
    rerun_changes_nothing(plan, s);
}

/// Mirroring copies every file and creates every directory of the listing.
/// Once the plan for a well-formed listing is carried out, over a store
/// that holds every file to be read and with a destination that keeps
/// reads and writes apart, each file copied holds at the destination the
/// bytes that it held at the source, and the destination, every directory
/// above it, and every directory of the listing under it exist.
pub proof fn mirror_copies_every_entry(
    src: Seq<char>,
    dst: Seq<char>,
    entries: Seq<Entry>,
    s: Store,
)
    requires
        well_formed(entries),
        reads_apart_from_writes(mirror_steps(src, dst, entries)),
        sources_present(mirror_steps(src, dst, entries), s),
    ensures
        ({
            let plan = mirror_steps(src, dst, entries);
            let after = run(plan, s);
            &&& forall|dir: Seq<char>| #[trigger] leads_to(dir, dst) ==> after.dirs.contains(dir)
            &&& forall|k: int|
                0 <= k < plan.len() && (#[trigger] plan[k]) is CopyFile
                    ==> after.files.contains_key(plan[k]->to) && after.files[plan[k]->to]
                    == s.files[plan[k]->from]
            &&& forall|k: int|
                0 <= k < plan.len() && (#[trigger] plan[k]) is CreateDirAll ==> after.dirs.contains(
                    plan[k]->CreateDirAll_0,
                )
        }),
{
    let plan = mirror_steps(src, dst, entries);
    let after = run(plan, s);
    mirror_writes_apart(src, dst, entries);
    every_step_lands(plan, s);
    assert(plan[0] == MirrorStepView::CreateDirAll(dst));
    assert forall|k: int| 0 <= k < plan.len() && (#[trigger] plan[k])
        is CreateDirAll implies after.dirs.contains(plan[k]->CreateDirAll_0) by {
        assert(leads_to(plan[k]->CreateDirAll_0, plan[k]->CreateDirAll_0));
    }
}

/// The steps for one entry are its visits, each carried from the entry's
/// place in the source to its place in the destination.
pub proof fn entry_steps_follow_visits(src: Seq<char>, dst: Seq<char>, entry: Entry)
    ensures
        entry_steps(src, dst, entry).len() == entry_visits(entry).len(),
        entry_paths(src, entry).len() == entry_visits(entry).len(),
        entry_paths(dst, entry).len() == entry_visits(entry).len(),
        forall|k: int|
            0 <= k < entry_visits(entry).len() ==> #[trigger] entry_steps(src, dst, entry)[k]
                == step_for(
                entry_visits(entry)[k],
                entry_paths(src, entry)[k],
                entry_paths(dst, entry)[k],
            ),
    decreases entry,
{
    match entry.node {
        Node::Directory(children) => {
            plan_follows_visits(joined(src, entry.name@), joined(dst, entry.name@), children@);
        },
        _ => {},
    }
}

/// The steps for the entries of a directory are their visits, each carried
/// from its place in the source to its place in the destination.
pub proof fn entries_steps_follow_visits(src: Seq<char>, dst: Seq<char>, entries: Seq<Entry>)
    ensures
        entries_steps(src, dst, entries).len() == entries_visits(entries).len(),
        entries_paths(src, entries).len() == entries_visits(entries).len(),
        entries_paths(dst, entries).len() == entries_visits(entries).len(),
        forall|k: int|
            0 <= k < entries_visits(entries).len() ==> #[trigger] entries_steps(
                src,
                dst,
                entries,
            )[k] == step_for(
                entries_visits(entries)[k],
                entries_paths(src, entries)[k],
                entries_paths(dst, entries)[k],
            ),
    decreases entries, 0int,
{
    if entries.len() > 0 {
        let init = entries.drop_last();
        let last = entries.last();
        entries_steps_follow_visits(src, dst, init);
        entry_steps_follow_visits(src, dst, last);
    }
}

/// A plan is its tree, visit by visit: the step at each place creates,
/// copies or skips as the kind of the entry there asks, from the entry's path
/// under the source to its path under the destination. What is done at a
/// place depends on the listing alone, and where on the two roots alone.
pub proof fn plan_follows_visits(src: Seq<char>, dst: Seq<char>, entries: Seq<Entry>)
    ensures
        mirror_steps(src, dst, entries).len() == tree_visits(entries).len(),
        tree_paths(src, entries).len() == tree_visits(entries).len(),
        tree_paths(dst, entries).len() == tree_visits(entries).len(),
        forall|k: int|
            0 <= k < tree_visits(entries).len() ==> #[trigger] mirror_steps(src, dst, entries)[k]
                == step_for(
                tree_visits(entries)[k],
                tree_paths(src, entries)[k],
                tree_paths(dst, entries)[k],
            ),
    decreases entries, 1int,
{
    entries_steps_follow_visits(src, dst, entries);
}

/// A directory mirrored as its backup and mirrored back comes back whole.
///
/// Take a source with a final component and a well-formed listing, every
/// file of which is in the store `s`, and carry out the backup's plan. Let
/// `later` be any store that still holds the mirror's files as that run left
/// them; the source may be gone from it. Carry out over `later` the plan that
/// restore makes for the mirror, listed as the source was, into a directory
/// where it does not write what it reads. Then every file of the listing
/// holds, at its place under its own name in the output directory, the bytes
/// that it held at its place in the source, and every directory of the
/// listing, empty ones too, exists at its place.
pub proof fn mirror_round_trip(
    path: Seq<char>,
    output_dir: Seq<char>,
    entries: Seq<Entry>,
    s: Store,
    later: Store,
)
    requires
        final_component(path) is Some,
        well_formed(entries),
        sources_present(
            mirror_steps(path, trim_end(path) + plain_dir_suffix(), entries),
            s,
        ),
        forall|k: int|
            0 <= k < tree_visits(entries).len() && tree_visits(entries)[k] == Visit::Copy
                ==> same_file(
                later,
                run(mirror_steps(path, trim_end(path) + plain_dir_suffix(), entries), s),
                #[trigger] tree_paths(trim_end(path) + plain_dir_suffix(), entries)[k],
            ),
        reads_apart_from_writes(
            mirror_steps(
                trim_end(path) + plain_dir_suffix(),
                joined(output_dir, final_component(path)->0),
                entries,
            ),
        ),
    ensures
        ({
            let artifact = trim_end(path) + plain_dir_suffix();
            let back = joined(output_dir, final_component(path)->0);
            let restored = run(mirror_steps(artifact, back, entries), later);
            &&& tree_paths(path, entries).len() == tree_visits(entries).len()
            &&& tree_paths(back, entries).len() == tree_visits(entries).len()
            &&& forall|k: int|
                0 <= k < tree_visits(entries).len() && #[trigger] tree_visits(entries)[k]
                    == Visit::Copy ==> restored.files.contains_key(tree_paths(back, entries)[k])
                    && restored.files[tree_paths(back, entries)[k]]
                    == s.files[tree_paths(path, entries)[k]]
            &&& forall|k: int|
                0 <= k < tree_visits(entries).len() && #[trigger] tree_visits(entries)[k]
                    == Visit::Create ==> restored.dirs.contains(tree_paths(back, entries)[k])
        }),
{
    let artifact = trim_end(path) + plain_dir_suffix();
    let back = joined(output_dir, final_component(path)->0);
    let out_plan = mirror_steps(path, artifact, entries);
    let back_plan = mirror_steps(artifact, back, entries);
    let visits = tree_visits(entries);
    plan_follows_visits(path, artifact, entries);
    plan_follows_visits(artifact, back, entries);
    backup_mirror_reads_apart(path, entries);
    mirror_writes_apart(path, artifact, entries);
    mirror_writes_apart(artifact, back, entries);
    every_step_lands(out_plan, s);
    assert forall|k: int| 0 <= k < back_plan.len() && (#[trigger] back_plan[k])
        is CopyFile implies later.files.contains_key(back_plan[k]->from)
        && later.files[back_plan[k]->from] == s.files[tree_paths(path, entries)[k]] by {
        assert(out_plan[k] is CopyFile);
    }
    every_step_lands(back_plan, later);
    let restored = run(back_plan, later);
    assert forall|k: int|
        0 <= k < visits.len() && #[trigger] visits[k]
            == Visit::Copy implies restored.files.contains_key(tree_paths(back, entries)[k])
        && restored.files[tree_paths(back, entries)[k]]
        == s.files[tree_paths(path, entries)[k]] by {
        assert(back_plan[k] is CopyFile);
    }
    assert forall|k: int|
        0 <= k < visits.len() && #[trigger] visits[k]
            == Visit::Create implies restored.dirs.contains(tree_paths(back, entries)[k]) by {
        assert(back_plan[k] is CreateDirAll);
        assert(leads_to(tree_paths(back, entries)[k], back_plan[k]->CreateDirAll_0));
    }
}

} // verus!
