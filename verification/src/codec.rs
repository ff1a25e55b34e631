//! The archive codec as a sequence of steps: which stream operations make an
//! archive out of its entries, and which unpack one, in the order they run.

use vstd::prelude::*;
use crate::error::Error;

verus! {

/// One thing to be put into an archive: a source on disk and the name it
/// gets inside the archive.
#[derive(Debug, PartialEq, Eq)]
pub enum ArchiveEntry {
    /// A single file, stored under `name`.
    File { name: String, path: String },
    /// A directory and all below it, stored with `name` as its root.
    Tree { name: String, path: String },
}

/// An archive entry over plain text.
pub ghost enum ArchiveEntryView {
    File { name: Seq<char>, path: Seq<char> },
    Tree { name: Seq<char>, path: Seq<char> },
}

impl View for ArchiveEntry {
    type V = ArchiveEntryView;

    open spec fn view(&self) -> ArchiveEntryView {
        match self {
            ArchiveEntry::File { name, path } => ArchiveEntryView::File {
                name: name@,
                path: path@,
            },
            ArchiveEntry::Tree { name, path } => ArchiveEntryView::Tree {
                name: name@,
                path: path@,
            },
        }
    }
}

/// One operation on the archive stream.
#[derive(Debug, PartialEq, Eq)]
pub enum CodecStep {
    /// Create the archive file and layer the compressor, at its default
    /// level, and the serializer over it.
    Create { archive: String },
    /// Append the file at `path` under `name`.
    AppendFile { name: String, path: String },
    /// Append the directory at `path`, and all below it, with `name` as root.
    AppendTree { name: String, path: String },
    /// Write the serializer's end-of-archive marker.
    FinishArchive,
    /// Finish the compressed frame and flush it to the file.
    FinishCompressor,
    /// Open the archive file and layer the decompressor and the deserializer
    /// over it.
    Open { archive: String },
    /// Unpack every entry below the directory `into`.
    Unpack { into: String },
}

/// A codec step over plain text.
pub ghost enum CodecStepView {
    Create { archive: Seq<char> },
    AppendFile { name: Seq<char>, path: Seq<char> },
    AppendTree { name: Seq<char>, path: Seq<char> },
    FinishArchive,
    FinishCompressor,
    Open { archive: Seq<char> },
    Unpack { into: Seq<char> },
}

impl View for CodecStep {
    type V = CodecStepView;

    open spec fn view(&self) -> CodecStepView {
        match self {
            CodecStep::Create { archive } => CodecStepView::Create { archive: archive@ },
            CodecStep::AppendFile { name, path } => CodecStepView::AppendFile {
                name: name@,
                path: path@,
            },
            CodecStep::AppendTree { name, path } => CodecStepView::AppendTree {
                name: name@,
                path: path@,
            },
            CodecStep::FinishArchive => CodecStepView::FinishArchive,
            CodecStep::FinishCompressor => CodecStepView::FinishCompressor,
            CodecStep::Open { archive } => CodecStepView::Open { archive: archive@ },
            CodecStep::Unpack { into } => CodecStepView::Unpack { into: into@ },
        }
    }
}

/// Where the archive stream stands between two steps.
#[derive(Clone, Copy, Debug, PartialEq, Eq, Structural)]
pub enum Stream {
    /// No stream is open.
    Closed,
    /// An archive is being written; entries may be appended.
    Writing,
    /// The archive has its end marker; the compressed frame is still open.
    Compressing,
    /// An archive is open for reading.
    Reading,
}

/// What the caller knows of why a step failed.
#[derive(Clone, Copy, Debug, PartialEq, Eq, Structural)]
pub enum Cause {
    /// What was read is not a compressed stream, or not an archive inside it.
    Malformed,
    /// Reading, writing or creating failed underneath.
    InputOutput,
}

/// The steps of a run, each by its view.
pub open spec fn codec_views(steps: Seq<CodecStep>) -> Seq<CodecStepView> {
    steps.map_values(|s: CodecStep| s@)
}

/// The entries of an archive, each by its view.
pub open spec fn entry_views(entries: Seq<ArchiveEntry>) -> Seq<ArchiveEntryView> {
    entries.map_values(|e: ArchiveEntry| e@)
}

/// The step that appends `entry`.
pub open spec fn append_step(entry: ArchiveEntryView) -> CodecStepView {
    match entry {
        ArchiveEntryView::File { name, path } => CodecStepView::AppendFile { name, path },
        ArchiveEntryView::Tree { name, path } => CodecStepView::AppendTree { name, path },
    }
}

/// The steps that write `entries` into the archive `destination`: the stream
/// is set up, each entry is appended in order, and then the serializer is
/// finished before the compressor.
pub open spec fn encode_steps(destination: Seq<char>, entries: Seq<ArchiveEntryView>) -> Seq<
    CodecStepView,
> {
    seq![CodecStepView::Create { archive: destination }] + entries.map_values(
        |e: ArchiveEntryView| append_step(e),
    ) + seq![CodecStepView::FinishArchive, CodecStepView::FinishCompressor]
}

/// The steps that unpack the archive `source` below `target_dir`.
pub open spec fn decode_steps(source: Seq<char>, target_dir: Seq<char>) -> Seq<CodecStepView> {
    seq![CodecStepView::Open { archive: source }, CodecStepView::Unpack { into: target_dir }]
}

/// `step` reads an archive.
pub open spec fn reads_archive(step: CodecStepView) -> bool {
    step is Open || step is Unpack
}

/// What the failure of `step` is reported as, given its cause: a corrupt
/// archive where a step that reads an archive met a malformed stream or
/// tree, and a failure of input or output in every other case.
pub open spec fn failure_of(step: CodecStepView, cause: Cause) -> Error {
    if reads_archive(step) && cause == Cause::Malformed {
        Error::CorruptArchive
    } else {
        Error::Io
    }
}

/// Where the stream stands after `step`, taken while it stood at `state`;
/// `None` where the step has no place there.
pub open spec fn stream_after(state: Stream, step: CodecStepView) -> Option<Stream> {
    match (state, step) {
        (Stream::Closed, CodecStepView::Create { .. }) => Some(Stream::Writing),
        (Stream::Writing, CodecStepView::AppendFile { .. }) => Some(Stream::Writing),
        (Stream::Writing, CodecStepView::AppendTree { .. }) => Some(Stream::Writing),
        (Stream::Writing, CodecStepView::FinishArchive) => Some(Stream::Compressing),
        (Stream::Compressing, CodecStepView::FinishCompressor) => Some(Stream::Closed),
        (Stream::Closed, CodecStepView::Open { .. }) => Some(Stream::Reading),
        (Stream::Reading, CodecStepView::Unpack { .. }) => Some(Stream::Closed),
        _ => None,
    }
}

/// Where the stream stands after `steps`, taken in order from `state`; `None`
/// where one of them has no place where it comes.
pub open spec fn stream_through(state: Stream, steps: Seq<CodecStepView>) -> Option<Stream>
    decreases steps.len(),
{
    if steps.len() == 0 {
        Some(state)
    } else {
        match stream_through(state, steps.drop_last()) {
            Some(before) => stream_after(before, steps.last()),
            None => None,
        }
    }
}

/// The steps that still finish a stream left at `state`: what is written gets
/// its end marker and the compressed frame its end, in that order.
pub open spec fn closing_steps(state: Stream) -> Seq<CodecStepView> {
    match state {
        Stream::Writing => seq![CodecStepView::FinishArchive, CodecStepView::FinishCompressor],
        Stream::Compressing => seq![CodecStepView::FinishCompressor],
        _ => Seq::empty(),
    }
}

/// Appending entries keeps a stream that is being written in that state.
proof fn appends_keep_writing(entries: Seq<ArchiveEntryView>)
    ensures
        stream_through(
            Stream::Writing,
            entries.map_values(|e: ArchiveEntryView| append_step(e)),
        ) == Some(Stream::Writing),
    decreases entries.len(),
{
    let steps = entries.map_values(|e: ArchiveEntryView| append_step(e));
    if entries.len() > 0 {
        appends_keep_writing(entries.drop_last());
        assert(steps.drop_last() =~= entries.drop_last().map_values(
            |e: ArchiveEntryView| append_step(e),
        ));
    }
}

/// Steps taken one run after the other bring the stream where the second
/// run brings it from where the first has left it.
proof fn stream_through_both(state: Stream, a: Seq<CodecStepView>, b: Seq<CodecStepView>)
    ensures
        stream_through(state, a + b) == match stream_through(state, a) {
            Some(between) => stream_through(between, b),
            None => None,
        },
    decreases b.len(),
{
    if b.len() > 0 {
        stream_through_both(state, a, b.drop_last());
        assert((a + b).drop_last() =~= a + b.drop_last());
    }
}

/// Writing an archive is a run of the stream from closed to closed: it is
/// set up first, filled while it is open, and given its end marker before
/// the compressed frame is finished.
pub proof fn encoding_closes_the_stream(destination: Seq<char>, entries: Seq<ArchiveEntryView>)
    ensures
        stream_through(Stream::Closed, encode_steps(destination, entries)) == Some(
            Stream::Closed,
        ),
{
    let head = seq![CodecStepView::Create { archive: destination }];
    let body = entries.map_values(|e: ArchiveEntryView| append_step(e));
    let tail = seq![CodecStepView::FinishArchive, CodecStepView::FinishCompressor];
    reveal_with_fuel(stream_through, 3);
    appends_keep_writing(entries);
    stream_through_both(Stream::Closed, head, body);
    stream_through_both(Stream::Closed, head + body, tail);
}

/// Reading an archive is a run of the stream from closed to closed.
pub proof fn decoding_closes_the_stream(source: Seq<char>, target_dir: Seq<char>)
    ensures
        stream_through(Stream::Closed, decode_steps(source, target_dir)) == Some(Stream::Closed),
{
    let steps = decode_steps(source, target_dir);
    reveal_with_fuel(stream_through, 3);
}

/// Wherever a run of writing breaks off, the closing steps finish what is
/// there: from any state they bring the stream to closed, or leave it as it
/// is where nothing was being written.
pub proof fn closing_steps_close(state: Stream)
    ensures
        stream_through(state, closing_steps(state)) == Some(
            if state == Stream::Reading {
                Stream::Reading
            } else {
                Stream::Closed
            },
        ),
{
    let steps = closing_steps(state);
    reveal_with_fuel(stream_through, 3);
}

/// Plans the writing of `entries` into a new archive at `destination`.
///
/// The steps run in order and the first failure ends the run; nothing is
/// rolled back, so a failed run may leave a truncated file behind.
pub fn make_archive(destination: &str, entries: &[ArchiveEntry]) -> (steps: Vec<CodecStep>)
    ensures
        codec_views(steps@) == encode_steps(destination@, entry_views(entries@)),
        stream_through(Stream::Closed, codec_views(steps@)) == Some(Stream::Closed),
{
    proof {
        encoding_closes_the_stream(destination@, entry_views(entries@));
    }
    let mut steps: Vec<CodecStep> = Vec::new();
    steps.push(CodecStep::Create { archive: String::from_str(destination) });
    let ghost head = seq![CodecStepView::Create { archive: destination@ }];
    let ghost all = entry_views(entries@).map_values(|e: ArchiveEntryView| append_step(e));
    let mut i: usize = 0;
    while i < entries.len()
        invariant
            i <= entries.len(),
            all == entry_views(entries@).map_values(|e: ArchiveEntryView| append_step(e)),
            codec_views(steps@) == head + all.take(i as int),
        decreases entries.len() - i,
    {
        let ghost done = codec_views(steps@);
        let step = match &entries[i] {
            ArchiveEntry::File { name, path } => CodecStep::AppendFile {
                name: name.clone(),
                path: path.clone(),
            },
            ArchiveEntry::Tree { name, path } => CodecStep::AppendTree {
                name: name.clone(),
                path: path.clone(),
            },
        };
        steps.push(step);
        assert(codec_views(steps@) =~= done.push(all[i as int]));
        i += 1;
    }
    let ghost appended = codec_views(steps@);
    steps.push(CodecStep::FinishArchive);
    steps.push(CodecStep::FinishCompressor);
    assert(codec_views(steps@) =~= appended + seq![
        CodecStepView::FinishArchive,
        CodecStepView::FinishCompressor,
    ]);
    steps
}

/// Plans the unpacking of the archive `source` below `target_dir`.
pub fn read_archive(source: &str, target_dir: &str) -> (steps: Vec<CodecStep>)
    ensures
        codec_views(steps@) == decode_steps(source@, target_dir@),
        stream_through(Stream::Closed, codec_views(steps@)) == Some(Stream::Closed),
{
    proof {
        decoding_closes_the_stream(source@, target_dir@);
    }
    let mut steps: Vec<CodecStep> = Vec::new();
    steps.push(CodecStep::Open { archive: String::from_str(source) });
    steps.push(CodecStep::Unpack { into: String::from_str(target_dir) });
    assert(codec_views(steps@) =~= decode_steps(source@, target_dir@));
    steps
}

/// Tells where the stream stands after `step`, taken while it stood at
/// `state`, or that the step has no place there.
pub fn advance(state: Stream, step: &CodecStep) -> (r: Option<Stream>)
    ensures
        r == stream_after(state, step@),
{
    match (state, step) {
        (Stream::Closed, CodecStep::Create { .. }) => Some(Stream::Writing),
        (Stream::Writing, CodecStep::AppendFile { .. }) => Some(Stream::Writing),
        (Stream::Writing, CodecStep::AppendTree { .. }) => Some(Stream::Writing),
        (Stream::Writing, CodecStep::FinishArchive) => Some(Stream::Compressing),
        (Stream::Compressing, CodecStep::FinishCompressor) => Some(Stream::Closed),
        (Stream::Closed, CodecStep::Open { .. }) => Some(Stream::Reading),
        (Stream::Reading, CodecStep::Unpack { .. }) => Some(Stream::Closed),
        _ => None,
    }
}

/// Plans what is still to be done with a stream that a failed step has left
/// at `state`, so that what was written is flushed as far as it goes. These
/// steps are tried one after the other whether or not they succeed.
pub fn wind_up(state: Stream) -> (steps: Vec<CodecStep>)
    ensures
        codec_views(steps@) == closing_steps(state),
{
    let mut steps: Vec<CodecStep> = Vec::new();
    match state {
        Stream::Writing => {
            steps.push(CodecStep::FinishArchive);
            steps.push(CodecStep::FinishCompressor);
        },
        Stream::Compressing => {
            steps.push(CodecStep::FinishCompressor);
        },
        _ => {},
    }
    steps
}

/// The error that a failure of `step` is reported as, given what the caller
/// knows of its cause.
///
/// Only a malformed stream or archive, met while reading one, is a
/// `CorruptArchive`. A failed read or write is `Io` whatever the step, and so
/// is every failure while an archive is written.
pub fn failure(step: &CodecStep, cause: Cause) -> (e: Error)
    ensures
        e == failure_of(step@, cause),
{
    match (step, cause) {
        (CodecStep::Open { .. }, Cause::Malformed) => Error::CorruptArchive,
        (CodecStep::Unpack { .. }, Cause::Malformed) => Error::CorruptArchive,
        _ => Error::Io,
    }
}

} // verus!
