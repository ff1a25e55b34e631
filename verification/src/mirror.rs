//! Directory mirroring: from the listing of a source tree to the steps that
//! duplicate it under a destination.

use vstd::prelude::*;
use crate::path::{is_component, join, joined};

verus! {

/// What sits under a name in a directory listing.
#[derive(Debug, PartialEq, Eq)]
pub enum Node {
    /// A regular file.
    File,
    /// A directory, with what it holds.
    Directory(Vec<Entry>),
    /// Anything else: a link, a device, a socket.
    Unsupported,
}

/// One named entry of a directory listing.
#[derive(Debug, PartialEq, Eq)]
pub struct Entry {
    pub name: String,
    pub node: Node,
}

/// One step of a mirroring run.
#[derive(Debug, PartialEq, Eq)]
pub enum MirrorStep {
    /// Create the directory and every missing ancestor; no fault if it exists.
    CreateDirAll(String),
    /// Copy the bytes of the file `from` to `to`, replacing what is there.
    CopyFile { from: String, to: String },
    /// Leave the entry alone and report it.
    Skip(String),
}

/// A mirroring step over plain text.
pub ghost enum MirrorStepView {
    CreateDirAll(Seq<char>),
    CopyFile { from: Seq<char>, to: Seq<char> },
    Skip(Seq<char>),
}

impl View for MirrorStep {
    type V = MirrorStepView;

    open spec fn view(&self) -> MirrorStepView {
        match self {
            MirrorStep::CreateDirAll(p) => MirrorStepView::CreateDirAll(p@),
            MirrorStep::CopyFile { from, to } => MirrorStepView::CopyFile { from: from@, to: to@ },
            MirrorStep::Skip(p) => MirrorStepView::Skip(p@),
        }
    }
}

/// The steps of a run, each by its view.
pub open spec fn step_views(steps: Seq<MirrorStep>) -> Seq<MirrorStepView> {
    steps.map_values(|s: MirrorStep| s@)
}

/// The steps that mirror the directory `src`, which holds `entries`, as `dst`:
/// first `dst` is created, then each entry is handled in the order listed.
pub open spec fn mirror_steps(src: Seq<char>, dst: Seq<char>, entries: Seq<Entry>) -> Seq<
    MirrorStepView,
>
    decreases entries, 1int,
{
    seq![MirrorStepView::CreateDirAll(dst)] + entries_steps(src, dst, entries)
}

/// The steps for the entries of one directory, in the order listed.
pub open spec fn entries_steps(src: Seq<char>, dst: Seq<char>, entries: Seq<Entry>) -> Seq<
    MirrorStepView,
>
    decreases entries, 0int,
{
    if entries.len() == 0 {
        Seq::empty()
    } else {
        entries_steps(src, dst, entries.drop_last()) + entry_steps(src, dst, entries.last())
    }
}

/// The steps for one entry of the directory `src`: a file is copied, a
/// directory is mirrored in turn, anything else is skipped.
pub open spec fn entry_steps(src: Seq<char>, dst: Seq<char>, entry: Entry) -> Seq<MirrorStepView>
    decreases entry,
{
    let from = joined(src, entry.name@);
    let to = joined(dst, entry.name@);
    match entry.node {
        Node::File => seq![MirrorStepView::CopyFile { from, to }],
        Node::Directory(children) => mirror_steps(from, to, children@),
        Node::Unsupported => seq![MirrorStepView::Skip(from)],
    }
}

/// What a plan does with one entry of the tree.
pub ghost enum Visit {
    /// A directory, created at the destination.
    Create,
    /// A file, copied to the destination.
    Copy,
    /// Anything else, skipped.
    Pass,
}

/// The step that a visit of kind `visit` comes to, for an entry that stands
/// at `from` in the source and goes to `to` in the destination.
pub open spec fn step_for(visit: Visit, from: Seq<char>, to: Seq<char>) -> MirrorStepView {
    match visit {
        Visit::Create => MirrorStepView::CreateDirAll(to),
        Visit::Copy => MirrorStepView::CopyFile { from, to },
        Visit::Pass => MirrorStepView::Skip(from),
    }
}

/// The visits that mirroring pays to the tree listed by `entries`, the root
/// first, then each entry where the listing has it, a directory before what
/// it holds.
pub open spec fn tree_visits(entries: Seq<Entry>) -> Seq<Visit>
    decreases entries, 1int,
{
    seq![Visit::Create] + entries_visits(entries)
}

/// The visits to the entries of one directory and to all below them.
pub open spec fn entries_visits(entries: Seq<Entry>) -> Seq<Visit>
    decreases entries, 0int,
{
    if entries.len() == 0 {
        Seq::empty()
    } else {
        entries_visits(entries.drop_last()) + entry_visits(entries.last())
    }
}

/// The visits to one entry and to all below it.
pub open spec fn entry_visits(entry: Entry) -> Seq<Visit>
    decreases entry,
{
    match entry.node {
        Node::File => seq![Visit::Copy],
        Node::Directory(children) => tree_visits(children@),
        Node::Unsupported => seq![Visit::Pass],
    }
}

/// The path of everything in the tree listed by `entries` when the tree
/// stands at `root`, in the order of the visits.
pub open spec fn tree_paths(root: Seq<char>, entries: Seq<Entry>) -> Seq<Seq<char>>
    decreases entries, 1int,
{
    seq![root] + entries_paths(root, entries)
}

/// The paths of the entries of the directory `root` and of all below them.
pub open spec fn entries_paths(root: Seq<char>, entries: Seq<Entry>) -> Seq<Seq<char>>
    decreases entries, 0int,
{
    if entries.len() == 0 {
        Seq::empty()
    } else {
        entries_paths(root, entries.drop_last()) + entry_paths(root, entries.last())
    }
}

/// The paths of one entry of the directory `root` and of all below it.
pub open spec fn entry_paths(root: Seq<char>, entry: Entry) -> Seq<Seq<char>>
    decreases entry,
{
    let path = joined(root, entry.name@);
    match entry.node {
        Node::Directory(children) => tree_paths(path, children@),
        _ => seq![path],
    }
}

/// The listing `entries` is one that a directory can have: every name in it,
/// at every depth, is a component, and no directory holds a name twice.
pub open spec fn well_formed(entries: Seq<Entry>) -> bool
    decreases entries, 1int,
{
    &&& forall|i: int| 0 <= i < entries.len() ==> entry_well_formed(#[trigger] entries[i])
    &&& forall|i: int, j: int|
        0 <= i < j < entries.len() ==> (#[trigger] entries[i]).name@ != (
        #[trigger] entries[j]).name@
}

/// The entry has a component as its name and, where it is a directory, a
/// well-formed listing.
pub open spec fn entry_well_formed(entry: Entry) -> bool
    decreases entry,
{
    &&& is_component(entry.name@)
    &&& match entry.node {
        Node::Directory(children) => well_formed(children@),
        _ => true,
    }
}

/// Appends to `out` the steps that mirror `src`, which holds `entries`, as `dst`.
fn mirror_into(src: &str, dst: &str, entries: &Vec<Entry>, out: &mut Vec<MirrorStep>)
    ensures
        step_views(final(out)@) == step_views(old(out)@) + mirror_steps(src@, dst@, entries@),
    decreases entries,
{
    let ghost before = step_views(out@);
    out.push(MirrorStep::CreateDirAll(String::from_str(dst)));
    let ghost created = before + seq![MirrorStepView::CreateDirAll(dst@)];
    let mut i: usize = 0;
    while i < entries.len()
        invariant
            i <= entries.len(),
            step_views(out@) == created + entries_steps(src@, dst@, entries@.take(i as int)),
        decreases entries.len() - i,
    {
        let ghost done = step_views(out@);
        let entry = &entries[i];
        let from = join(src, entry.name.as_str());
        let to = join(dst, entry.name.as_str());
        match &entry.node {
            Node::File => {
                out.push(MirrorStep::CopyFile { from, to });
                assert(step_views(out@) =~= done + entry_steps(src@, dst@, *entry));
            },
            Node::Directory(children) => {
                mirror_into(from.as_str(), to.as_str(), children, out);
            },
            Node::Unsupported => {
                out.push(MirrorStep::Skip(from));
                assert(step_views(out@) =~= done + entry_steps(src@, dst@, *entry));
            },
        }
        assert(entries@.take(i + 1).drop_last() =~= entries@.take(i as int));
        i += 1;
    }
    assert(entries@.take(i as int) =~= entries@);
}

/// Plans the mirroring of the directory `src`, which holds `entries`, as `dst`.
///
/// The plan creates `dst` with its missing ancestors, then takes the entries
/// in the order listed: a file is copied to the same name under `dst`, a
/// directory is mirrored in the same way, and anything else is skipped and
/// reported without failing the run. Carrying the plan out again over a
/// destination that holds an earlier mirror replaces its files in place.
pub fn copy_dir_all(src: &str, dst: &str, entries: &Vec<Entry>) -> (steps: Vec<MirrorStep>)
    ensures
        step_views(steps@) == mirror_steps(src@, dst@, entries@),
{
    let mut steps: Vec<MirrorStep> = Vec::new();
    mirror_into(src, dst, entries, &mut steps);
    steps
}

} // verus!
