//! What a mirroring plan does, told over an idealised store: files with
//! their bytes and directories, each known by the text of its path.
//!
//! The store stands for the filesystem in the statements about plans; it
//! takes every path as written and knows no links and no permissions.

use vstd::prelude::*;
use crate::mirror::MirrorStepView;
use crate::path::below;

verus! {

/// The files, by path, with their bytes, and the directories, by path.
pub ghost struct Store {
    pub files: Map<Seq<char>, Seq<u8>>,
    pub dirs: Set<Seq<char>>,
}

/// `dir` is on the way to `p`: it is `p` itself or a directory above it.
pub open spec fn leads_to(dir: Seq<char>, p: Seq<char>) -> bool {
    dir == p || (dir.len() > 0 && below(dir, p))
}

/// The store after `step`. A copy puts the source's bytes under the target's
/// path, in place of what was there; a copy without a source file changes
/// nothing. Creating a directory records it and every directory above it. A
/// skip changes nothing.
pub open spec fn apply(step: MirrorStepView, s: Store) -> Store {
    match step {
        MirrorStepView::CreateDirAll(p) => Store {
            files: s.files,
            dirs: s.dirs.union(Set::new(|dir: Seq<char>| leads_to(dir, p))),
        },
        MirrorStepView::CopyFile { from, to } => if s.files.contains_key(from) {
            Store { files: s.files.insert(to, s.files[from]), dirs: s.dirs }
        } else {
            s
        },
        MirrorStepView::Skip(_) => s,
    }
}

/// The store after the file `from` is copied to `to`.
pub open spec fn copied(from: Seq<char>, to: Seq<char>, s: Store) -> Store {
    apply(MirrorStepView::CopyFile { from, to }, s)
}

/// The store after `steps`, taken one after the other.
pub open spec fn run(steps: Seq<MirrorStepView>, s: Store) -> Store
    decreases steps.len(),
{
    if steps.len() == 0 {
        s
    } else {
        apply(steps.last(), run(steps.drop_last(), s))
    }
}

/// No step of `steps` writes a file that a step of `steps` reads.
pub open spec fn reads_apart_from_writes(steps: Seq<MirrorStepView>) -> bool {
    forall|i: int, j: int|
        0 <= i < steps.len() && 0 <= j < steps.len() && (#[trigger] steps[i]) is CopyFile && (
        #[trigger] steps[j]) is CopyFile ==> steps[i]->from != steps[j]->to
}

/// No two steps of `steps` write the same file.
pub open spec fn writes_apart(steps: Seq<MirrorStepView>) -> bool {
    forall|i: int, j: int|
        0 <= i < j < steps.len() && (#[trigger] steps[i]) is CopyFile && (#[trigger] steps[j])
            is CopyFile ==> steps[i]->to != steps[j]->to
}

/// Every file that a step of `steps` reads is in the store `s`.
pub open spec fn sources_present(steps: Seq<MirrorStepView>, s: Store) -> bool {
    forall|i: int|
        0 <= i < steps.len() && (#[trigger] steps[i]) is CopyFile ==> s.files.contains_key(
            steps[i]->from,
        )
}

/// Some step of `steps` writes the file `p`.
pub open spec fn writes(steps: Seq<MirrorStepView>, p: Seq<char>) -> bool {
    exists|i: int| 0 <= i < steps.len() && (#[trigger] steps[i]) is CopyFile && steps[i]->to == p
}

/// Some step of `steps` creates the directory `dir`: it creates `dir`
/// itself or a directory below it, and so `dir` on the way.
pub open spec fn creates(steps: Seq<MirrorStepView>, dir: Seq<char>) -> bool {
    exists|i: int|
        0 <= i < steps.len() && (#[trigger] steps[i]) is CreateDirAll && leads_to(
            dir,
            steps[i]->CreateDirAll_0,
        )
}

/// The file `p` is the same in `a` and in `b`: in both or in neither, and
/// with the same bytes.
pub open spec fn same_file(a: Store, b: Store, p: Seq<char>) -> bool {
    a.files.contains_key(p) == b.files.contains_key(p) && (a.files.contains_key(p)
        ==> a.files[p] == b.files[p])
}

/// A run leaves every file alone that none of its steps writes.
pub proof fn run_leaves_unwritten(steps: Seq<MirrorStepView>, s: Store, p: Seq<char>)
    requires
        !writes(steps, p),
    ensures
        same_file(run(steps, s), s, p),
    decreases steps.len(),
{
    if steps.len() > 0 {
        let init = steps.drop_last();
        run_leaves_unwritten(init, s, p);
    }
}

/// A directory exists after a run exactly when it existed before, or is,
/// or lies above, a directory that a step of the run creates.
pub proof fn run_adds_created(steps: Seq<MirrorStepView>, s: Store, dir: Seq<char>)
    ensures
        run(steps, s).dirs.contains(dir) <==> s.dirs.contains(dir) || creates(steps, dir),
    decreases steps.len(),
{
    if steps.len() > 0 {
        let init = steps.drop_last();
        let last: int = steps.len() - 1;
        run_adds_created(init, s, dir);
        if creates(init, dir) {
            let i = choose|i: int|
                0 <= i < init.len() && (#[trigger] init[i]) is CreateDirAll && leads_to(
                    dir,
                    init[i]->CreateDirAll_0,
                );
            assert(steps[i] is CreateDirAll && leads_to(dir, steps[i]->CreateDirAll_0));
        }
        if creates(steps, dir) && !creates(init, dir) {
            let i = choose|i: int|
                0 <= i < steps.len() && (#[trigger] steps[i]) is CreateDirAll && leads_to(
                    dir,
                    steps[i]->CreateDirAll_0,
                );
            if i < last {
                assert(init[i] is CreateDirAll && leads_to(dir, init[i]->CreateDirAll_0));
            }
        }
        if steps[last] is CreateDirAll && leads_to(dir, steps[last]->CreateDirAll_0) {
            assert(creates(steps, dir));
        }
    }
}

/// What a run writes depends on what it reads alone: from two stores that
/// hold the same bytes under every source, a run that never writes what it
/// reads leaves the same bytes under every path it writes.
pub proof fn run_is_determined_by_sources(
    steps: Seq<MirrorStepView>,
    a: Store,
    b: Store,
    p: Seq<char>,
)
    requires
        reads_apart_from_writes(steps),
        sources_present(steps, a),
        forall|i: int|
            0 <= i < steps.len() && (#[trigger] steps[i]) is CopyFile ==> same_file(
                a,
                b,
                steps[i]->from,
            ),
        writes(steps, p),
    ensures
        run(steps, a).files.contains_key(p),
        same_file(run(steps, a), run(steps, b), p),
    decreases steps.len(),
{
    let init = steps.drop_last();
    let last: int = steps.len() - 1;
    assert forall|i: int| 0 <= i < init.len() implies init[i] == steps[i] by {}
    if steps[last] is CopyFile {
        let from = steps[last]->from;
        run_leaves_unwritten(init, a, from);
        run_leaves_unwritten(init, b, from);
    }
    if !(steps[last] is CopyFile && steps[last]->to == p) {
        run_is_determined_by_sources(init, a, b, p);
    }
}

/// Carrying a plan out a second time changes nothing, provided that the plan
/// never writes a file that it reads and that every file it reads is there:
/// after the second run every file holds the bytes it held after the first,
/// and the same directories exist.
pub proof fn rerun_changes_nothing(steps: Seq<MirrorStepView>, s: Store)
    requires
        reads_apart_from_writes(steps),
        sources_present(steps, s),
    ensures
        sources_present(steps, run(steps, s)),
        run(steps, run(steps, s)) == run(steps, s),
{
    let once = run(steps, s);
    let twice = run(steps, once);
    assert forall|i: int|
        0 <= i < steps.len() && (#[trigger] steps[i]) is CopyFile implies same_file(
        once,
        s,
        steps[i]->from,
    ) by {
        run_leaves_unwritten(steps, s, steps[i]->from);
    }
    assert forall|p: Seq<char>|
        #[trigger] twice.files.dom().contains(p) == once.files.dom().contains(p) && (
        twice.files.dom().contains(p) ==> twice.files[p] == once.files[p]) by {
        if writes(steps, p) {
            run_is_determined_by_sources(steps, once, s, p);
        } else {
            run_leaves_unwritten(steps, once, p);
        }
    }
    assert(twice.files =~= once.files);
    assert forall|p: Seq<char>| twice.dirs.contains(p) == once.dirs.contains(p) by {
        run_adds_created(steps, once, p);
        run_adds_created(steps, s, p);
    }
    assert(twice.dirs =~= once.dirs);
}

/// Every step of a run takes effect and lasts to its end, provided that the
/// run never writes a file that it reads, writes no file twice, and finds
/// every file it reads: afterwards each copy's target holds the bytes that
/// its source held before the run, and each directory to be created exists,
/// with every directory above it.
pub proof fn every_step_lands(steps: Seq<MirrorStepView>, s: Store)
    requires
        reads_apart_from_writes(steps),
        writes_apart(steps),
        sources_present(steps, s),
    ensures
        forall|i: int|
            0 <= i < steps.len() && (#[trigger] steps[i]) is CopyFile ==> run(
                steps,
                s,
            ).files.contains_key(steps[i]->to) && run(steps, s).files[steps[i]->to]
                == s.files[steps[i]->from],
        forall|i: int, dir: Seq<char>|
            0 <= i < steps.len() && (#[trigger] steps[i]) is CreateDirAll && #[trigger] leads_to(
                dir,
                steps[i]->CreateDirAll_0,
            ) ==> run(steps, s).dirs.contains(dir),
    decreases steps.len(),
{
    if steps.len() > 0 {
        let init = steps.drop_last();
        let last: int = steps.len() - 1;
        assert forall|i: int| 0 <= i < init.len() implies init[i] == steps[i] by {}
        every_step_lands(init, s);
        if steps[last] is CopyFile {
            let from = steps[last]->from;
            run_leaves_unwritten(init, s, from);
        }
    }
}

} // verus!
