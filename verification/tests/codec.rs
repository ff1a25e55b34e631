use localbak::codec::{
    advance, failure, make_archive, read_archive, wind_up, ArchiveEntry, Cause, CodecStep,
    Stream,
};
use localbak::error::Error;

fn s(text: &str) -> String {
    text.to_string()
}

#[test]
fn an_archive_is_set_up_filled_and_finished() {
    let entries = vec![
        ArchiveEntry::File { name: s("foo"), path: s("a/foo") },
        ArchiveEntry::Tree { name: s("dir"), path: s("b/dir") },
    ];
    assert_eq!(
        make_archive("out.tar.zstd", &entries),
        vec![
            CodecStep::Create { archive: s("out.tar.zstd") },
            CodecStep::AppendFile { name: s("foo"), path: s("a/foo") },
            CodecStep::AppendTree { name: s("dir"), path: s("b/dir") },
            CodecStep::FinishArchive,
            CodecStep::FinishCompressor,
        ]
    );
}

#[test]
fn an_archive_without_entries_is_still_finished() {
    assert_eq!(
        make_archive("empty.tar.zstd", &Vec::new()),
        vec![
            CodecStep::Create { archive: s("empty.tar.zstd") },
            CodecStep::FinishArchive,
            CodecStep::FinishCompressor,
        ]
    );
}

#[test]
fn an_archive_is_opened_then_unpacked() {
    assert_eq!(
        read_archive("foo.tar.zstd", "out"),
        vec![CodecStep::Open { archive: s("foo.tar.zstd") }, CodecStep::Unpack { into: s("out") }]
    );
}

#[test]
fn only_a_malformed_archive_is_corrupt() {
    let unpack = CodecStep::Unpack { into: s("out") };
    let open = CodecStep::Open { archive: s("a") };
    assert_eq!(failure(&unpack, Cause::Malformed), Error::CorruptArchive);
    assert_eq!(failure(&open, Cause::Malformed), Error::CorruptArchive);
    assert_eq!(failure(&unpack, Cause::InputOutput), Error::Io);
    assert_eq!(failure(&open, Cause::InputOutput), Error::Io);
}

#[test]
fn writing_an_archive_fails_as_input_or_output() {
    let steps = [
        CodecStep::Create { archive: s("a") },
        CodecStep::AppendFile { name: s("n"), path: s("p") },
        CodecStep::AppendTree { name: s("n"), path: s("p") },
        CodecStep::FinishArchive,
        CodecStep::FinishCompressor,
    ];
    for step in &steps {
        assert_eq!(failure(step, Cause::InputOutput), Error::Io);
        assert_eq!(failure(step, Cause::Malformed), Error::Io);
    }
}

fn run_through(steps: &[CodecStep]) -> Option<Stream> {
    let mut state = Stream::Closed;
    for step in steps {
        state = advance(state, step)?;
    }
    Some(state)
}

#[test]
fn planned_runs_end_with_the_stream_closed() {
    let entries = vec![
        ArchiveEntry::File { name: s("foo"), path: s("a/foo") },
        ArchiveEntry::Tree { name: s("dir"), path: s("b/dir") },
    ];
    assert_eq!(run_through(&make_archive("out.tar.zstd", &entries)), Some(Stream::Closed));
    assert_eq!(run_through(&make_archive("out.tar.zstd", &[])), Some(Stream::Closed));
    assert_eq!(run_through(&read_archive("out.tar.zstd", "out")), Some(Stream::Closed));
}

#[test]
fn steps_have_their_place() {
    let append = CodecStep::AppendFile { name: s("n"), path: s("p") };
    let create = CodecStep::Create { archive: s("a") };
    let open = CodecStep::Open { archive: s("a") };
    let unpack = CodecStep::Unpack { into: s("o") };
    assert_eq!(advance(Stream::Closed, &create), Some(Stream::Writing));
    assert_eq!(advance(Stream::Writing, &append), Some(Stream::Writing));
    assert_eq!(advance(Stream::Writing, &CodecStep::FinishArchive), Some(Stream::Compressing));
    assert_eq!(advance(Stream::Compressing, &CodecStep::FinishCompressor), Some(Stream::Closed));
    assert_eq!(advance(Stream::Closed, &open), Some(Stream::Reading));
    assert_eq!(advance(Stream::Reading, &unpack), Some(Stream::Closed));

    assert_eq!(advance(Stream::Closed, &append), None);
    assert_eq!(advance(Stream::Compressing, &append), None);
    assert_eq!(advance(Stream::Writing, &CodecStep::FinishCompressor), None);
    assert_eq!(advance(Stream::Closed, &CodecStep::FinishArchive), None);
    assert_eq!(advance(Stream::Writing, &create), None);
    assert_eq!(advance(Stream::Reading, &open), None);
    assert_eq!(advance(Stream::Closed, &unpack), None);
    assert_eq!(advance(Stream::Writing, &unpack), None);
}

#[test]
fn a_broken_run_is_wound_up() {
    assert_eq!(
        wind_up(Stream::Writing),
        vec![CodecStep::FinishArchive, CodecStep::FinishCompressor]
    );
    assert_eq!(wind_up(Stream::Compressing), vec![CodecStep::FinishCompressor]);
    assert_eq!(wind_up(Stream::Closed), Vec::new());
    assert_eq!(wind_up(Stream::Reading), Vec::new());
}
