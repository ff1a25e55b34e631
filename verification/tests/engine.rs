use localbak::action::Action;
use localbak::backup::{backup, backup_all, backup_dir, backup_file, Source};
use localbak::codec::ArchiveEntry;
use localbak::error::Error;
use localbak::kind::EntryKind;
use localbak::restore::restore;

const CONTENT: &[u8] = b"AAAAAAAAAAAAAAAAAAAAAAAAAAAAAAAAAAAAAAAAAAA";

fn s(text: &str) -> String {
    text.to_string()
}

#[test]
fn test_simple_bak_restore() {
    let tdir = "/tmp/t";
    let tfile = "/tmp/t/foo";
    let tfile_b = "/tmp/t/foo.bak";
    let mut files: Vec<(String, Vec<u8>)> = vec![(s(tfile), CONTENT.to_vec())];

    let plan = backup_file(tfile, false).unwrap();
    assert_eq!(plan, Action::CopyFile { from: s(tfile), to: s(tfile_b) });
    assert_eq!(plan.target(), tfile_b);
    if let Action::CopyFile { from, to } = plan {
        let bytes = files.iter().find(|f| f.0 == from).unwrap().1.clone();
        files.push((to, bytes));
    }
    assert_eq!(files[1], (s(tfile_b), CONTENT.to_vec()));

    files.remove(0);
    let back = restore(tfile_b, EntryKind::File, tdir, EntryKind::Directory).unwrap();
    assert_eq!(back, Action::CopyFile { from: s(tfile_b), to: s(tfile) });
    if let Action::CopyFile { from, to } = back {
        let bytes = files.iter().find(|f| f.0 == from).unwrap().1.clone();
        files.push((to, bytes));
    }
    assert_eq!(files[1], (s(tfile), CONTENT.to_vec()));
}

#[test]
fn compressed_backup_and_restore_name_each_other() {
    let plan = backup_file("foo", true).unwrap();
    assert_eq!(
        plan,
        Action::Pack {
            archive: s("foo.tar.zstd"),
            entry: ArchiveEntry::File { name: s("foo"), path: s("foo") },
        }
    );
    let back = restore("foo.tar.zstd", EntryKind::File, ".", EntryKind::Directory);
    assert_eq!(back, Ok(Action::Unpack { archive: s("foo.tar.zstd"), into: s(".") }));
}

#[test]
fn compressed_directory_backup_is_rooted_at_its_own_name() {
    assert_eq!(
        backup_dir("work/project/", true),
        Ok(Action::Pack {
            archive: s("work/project.tar.zstd"),
            entry: ArchiveEntry::Tree { name: s("project"), path: s("work/project/") },
        })
    );
}

#[test]
fn compressed_file_backup_is_named_by_its_file_name() {
    assert_eq!(
        backup_file("a/b/notes.txt", true),
        Ok(Action::Pack {
            archive: s("a/b/notes.txt.tar.zstd"),
            entry: ArchiveEntry::File { name: s("notes.txt"), path: s("a/b/notes.txt") },
        })
    );
}

#[test]
fn backup_without_a_name_is_refused() {
    assert_eq!(backup_file("/", false), Err(Error::InvalidPath));
    assert_eq!(backup_dir("/", true), Err(Error::InvalidPath));
    assert_eq!(backup_dir("..", false), Err(Error::InvalidPath));
}

#[test]
fn backup_goes_by_the_kind() {
    assert_eq!(backup("x", EntryKind::Missing, false), Err(Error::NotFound));
    assert_eq!(backup("x", EntryKind::Missing, true), Err(Error::NotFound));
    assert_eq!(backup("/", EntryKind::Missing, true), Err(Error::NotFound));
    assert_eq!(backup("x", EntryKind::File, false), backup_file("x", false));
    assert_eq!(backup("x", EntryKind::Directory, false), backup_dir("x", false));
    assert_eq!(backup("x", EntryKind::File, true), backup_file("x", true));
    assert_eq!(backup("x", EntryKind::Directory, true), backup_dir("x", true));
}

#[test]
fn backup_of_an_artifact_gets_a_second_suffix() {
    assert_eq!(
        backup_file("foo.bak", false),
        Ok(Action::CopyFile { from: s("foo.bak"), to: s("foo.bak.bak") })
    );
}

#[test]
fn a_missing_source_does_not_stop_the_batch() {
    let sources = vec![
        Source { path: s("one"), kind: EntryKind::File },
        Source { path: s("two"), kind: EntryKind::Missing },
        Source { path: s("three"), kind: EntryKind::Directory },
    ];
    let outcomes = backup_all(&sources, false);
    assert_eq!(outcomes.len(), 3);
    assert_eq!(outcomes[0], Ok(Action::CopyFile { from: s("one"), to: s("one.bak") }));
    assert_eq!(outcomes[1], Err(Error::NotFound));
    assert_eq!(outcomes[2], Ok(Action::MirrorTree { from: s("three"), to: s("three.bak.d") }));
}

#[test]
fn an_empty_batch_plans_nothing() {
    assert_eq!(backup_all(&Vec::new(), true), Vec::new());
}

#[test]
fn restore_needs_an_output_directory() {
    assert_eq!(
        restore("foo.bak", EntryKind::File, "nowhere", EntryKind::Missing),
        Err(Error::NotFound)
    );
    assert_eq!(
        restore("foo.bak", EntryKind::File, "a_file", EntryKind::File),
        Err(Error::NotFound)
    );
    assert_eq!(
        restore("foo.txt", EntryKind::File, "nowhere", EntryKind::Missing),
        Err(Error::NotFound)
    );
}

#[test]
fn restore_needs_the_artifact() {
    assert_eq!(
        restore("foo.bak", EntryKind::Missing, "out", EntryKind::Directory),
        Err(Error::NotFound)
    );
}

#[test]
fn restore_refuses_a_bak_that_is_a_directory() {
    assert_eq!(
        restore("foo.bak", EntryKind::Directory, "out", EntryKind::Directory),
        Err(Error::InvalidArtifact)
    );
}

#[test]
fn restore_refuses_an_artifact_of_the_wrong_kind() {
    assert_eq!(
        restore("foo.bak.d", EntryKind::File, "out", EntryKind::Directory),
        Err(Error::InvalidArtifact)
    );
    assert_eq!(
        restore("foo.tar.zstd", EntryKind::Directory, "out", EntryKind::Directory),
        Err(Error::InvalidArtifact)
    );
    assert_eq!(
        restore("foo.tar.zst", EntryKind::Unsupported, "out", EntryKind::Directory),
        Err(Error::InvalidArtifact)
    );
    assert_eq!(
        restore("foo.bak", EntryKind::Unsupported, "out", EntryKind::Directory),
        Err(Error::InvalidArtifact)
    );
}

#[test]
fn restore_refuses_an_unknown_suffix() {
    assert_eq!(
        restore("foo.txt", EntryKind::File, "out", EntryKind::Directory),
        Err(Error::UnrecognizedFormat)
    );
    assert_eq!(
        restore("foobak", EntryKind::File, "out", EntryKind::Directory),
        Err(Error::UnrecognizedFormat)
    );
}

#[test]
fn restore_refuses_an_artifact_without_a_name() {
    assert_eq!(
        restore(".bak", EntryKind::File, "out", EntryKind::Directory),
        Err(Error::InvalidPath)
    );
    assert_eq!(
        restore("a/...bak.d", EntryKind::Directory, "out", EntryKind::Directory),
        Err(Error::InvalidPath)
    );
}

#[test]
fn restore_lands_in_the_output_directory() {
    assert_eq!(
        restore("/backups/deep/foo.bak", EntryKind::File, "/home/me", EntryKind::Directory),
        Ok(Action::CopyFile { from: s("/backups/deep/foo.bak"), to: s("/home/me/foo") })
    );
    assert_eq!(
        restore("data.bak.d", EntryKind::Directory, "out/", EntryKind::Directory),
        Ok(Action::MirrorTree { from: s("data.bak.d"), to: s("out/data") })
    );
    assert_eq!(
        restore("x.tar.zst", EntryKind::File, "out", EntryKind::Directory),
        Ok(Action::Unpack { archive: s("x.tar.zst"), into: s("out") })
    );
}

#[test]
fn target_is_what_the_action_writes() {
    assert_eq!(Action::CopyFile { from: s("a"), to: s("b") }.target(), "b");
    assert_eq!(Action::MirrorTree { from: s("a"), to: s("b") }.target(), "b");
    assert_eq!(
        Action::Pack {
            archive: s("a.tar.zstd"),
            entry: ArchiveEntry::File { name: s("a"), path: s("a") },
        }
        .target(),
        "a.tar.zstd"
    );
    assert_eq!(Action::Unpack { archive: s("a.tar.zstd"), into: s("out") }.target(), "out");
}

#[test]
fn directory_backup_and_restore_name_each_other() {
    let backup = backup_dir("/tmp/t/ichi", false).unwrap();
    assert_eq!(
        backup,
        Action::MirrorTree { from: s("/tmp/t/ichi"), to: s("/tmp/t/ichi.bak.d") }
    );
    let back = restore(backup.target(), EntryKind::Directory, "/tmp/t", EntryKind::Directory);
    assert_eq!(
        back,
        Ok(Action::MirrorTree { from: s("/tmp/t/ichi.bak.d"), to: s("/tmp/t/ichi") })
    );
}
