use localbak::action::Action;
use localbak::backup::backup_dir;
use localbak::kind::EntryKind;
use localbak::mirror::{copy_dir_all, Entry, MirrorStep, Node};
use localbak::restore::restore;

fn s(text: &str) -> String {
    text.to_string()
}

fn file(name: &str) -> Entry {
    Entry { name: s(name), node: Node::File }
}

fn dir(name: &str, entries: Vec<Entry>) -> Entry {
    Entry { name: s(name), node: Node::Directory(entries) }
}

fn copy(from: &str, to: &str) -> MirrorStep {
    MirrorStep::CopyFile { from: s(from), to: s(to) }
}

/// Sixteen bytes that differ from file to file.
fn bytes_for(i: usize) -> Vec<u8> {
    let mut x: u64 = 133719 + i as u64;
    let mut out = Vec::new();
    for _ in 0..16 {
        x = x.wrapping_mul(6364136223846793005).wrapping_add(1442695040888963407);
        out.push((x >> 33) as u8);
    }
    out
}

/// Carries `steps` out over a store of files by path and a list of directories.
fn carry_out(steps: &[MirrorStep], files: &mut Vec<(String, Vec<u8>)>, dirs: &mut Vec<String>) {
    for step in steps {
        match step {
            MirrorStep::CreateDirAll(p) => {
                let mut at = 0;
                while let Some(i) = p[at..].find('/') {
                    if at + i > 0 && !dirs.contains(&s(&p[..at + i])) {
                        dirs.push(s(&p[..at + i]));
                    }
                    at += i + 1;
                }
                if !dirs.contains(p) {
                    dirs.push(p.clone());
                }
            }
            MirrorStep::CopyFile { from, to } => {
                let bytes = files.iter().find(|f| &f.0 == from).unwrap().1.clone();
                files.retain(|f| &f.0 != to);
                files.push((to.clone(), bytes));
            }
            MirrorStep::Skip(_) => {}
        }
    }
}

fn sorted(mut files: Vec<(String, Vec<u8>)>) -> Vec<(String, Vec<u8>)> {
    files.sort();
    files
}

#[test]
fn missing_directories_above_the_destination_are_created() {
    let mut files = vec![(s("t/s/a"), b"x".to_vec())];
    let mut dirs = vec![s("t"), s("t/s")];
    carry_out(&copy_dir_all("t/s", "t/x/y/z", &vec![file("a")]), &mut files, &mut dirs);
    for dir in ["t/x", "t/x/y", "t/x/y/z"] {
        assert!(dirs.contains(&s(dir)));
    }
    assert_eq!(files.iter().find(|f| f.0 == "t/x/y/z/a").unwrap().1, b"x".to_vec());
}

#[test]
fn an_empty_directory_is_still_created() {
    assert_eq!(copy_dir_all("src", "dst", &Vec::new()), vec![MirrorStep::CreateDirAll(s("dst"))]);
}

#[test]
fn entries_are_taken_in_the_order_listed() {
    let listing = vec![file("foo"), file("bar"), file("qux")];
    assert_eq!(
        copy_dir_all("ichi", "ichi.bak.d", &listing),
        vec![
            MirrorStep::CreateDirAll(s("ichi.bak.d")),
            copy("ichi/foo", "ichi.bak.d/foo"),
            copy("ichi/bar", "ichi.bak.d/bar"),
            copy("ichi/qux", "ichi.bak.d/qux"),
        ]
    );
}

#[test]
fn directories_are_mirrored_in_turn() {
    let listing = vec![
        file("foo"),
        dir("ni", vec![file("foo"), dir("san", Vec::new()), file("bar")]),
        file("qux"),
    ];
    assert_eq!(
        copy_dir_all("ichi", "out/ichi", &listing),
        vec![
            MirrorStep::CreateDirAll(s("out/ichi")),
            copy("ichi/foo", "out/ichi/foo"),
            MirrorStep::CreateDirAll(s("out/ichi/ni")),
            copy("ichi/ni/foo", "out/ichi/ni/foo"),
            MirrorStep::CreateDirAll(s("out/ichi/ni/san")),
            copy("ichi/ni/bar", "out/ichi/ni/bar"),
            copy("ichi/qux", "out/ichi/qux"),
        ]
    );
}

#[test]
fn other_entries_are_skipped_not_failed() {
    let listing = vec![
        Entry { name: s("link"), node: Node::Unsupported },
        file("foo"),
        dir("sub", vec![Entry { name: s("socket"), node: Node::Unsupported }]),
    ];
    assert_eq!(
        copy_dir_all("a/", "b", &listing),
        vec![
            MirrorStep::CreateDirAll(s("b")),
            MirrorStep::Skip(s("a/link")),
            copy("a/foo", "b/foo"),
            MirrorStep::CreateDirAll(s("b/sub")),
            MirrorStep::Skip(s("a/sub/socket")),
        ]
    );
}

#[test]
fn test_dir_bak_restore() {
    let tdir = "/tmp/t";
    let tdir_a = "/tmp/t/ichi";
    let tdir_b = "/tmp/t/ichi/ni";
    let dirs_in = [tdir_a, tdir_b];
    let names = ["foo", "bar", "qux"];
    let listing = vec![
        file("foo"),
        file("bar"),
        file("qux"),
        dir("ni", vec![file("foo"), file("bar"), file("qux")]),
    ];

    let mut contents: Vec<Vec<u8>> = Vec::new();
    for i in 0..(dirs_in.len() * names.len()) {
        contents.push(bytes_for(i));
    }
    let mut files: Vec<(String, Vec<u8>)> = Vec::new();
    let mut dirs = vec![s(tdir), s(tdir_a), s(tdir_b)];
    let mut i = 0;
    for sdir in dirs_in {
        for fname in names {
            files.push((format!("{sdir}/{fname}"), contents[i].clone()));
            i += 1;
        }
    }

    let backup = match backup_dir(tdir_a, false).unwrap() {
        Action::MirrorTree { from, to } => {
            carry_out(&copy_dir_all(&from, &to, &listing), &mut files, &mut dirs);
            to
        }
        other => panic!("{:?}", other),
    };
    assert_eq!(backup, "/tmp/t/ichi.bak.d");
    files.retain(|f| !f.0.starts_with("/tmp/t/ichi/"));
    dirs.retain(|d| d != tdir_a && d != tdir_b);
    assert_eq!(files.len(), 6);

    match restore(&backup, EntryKind::Directory, tdir, EntryKind::Directory).unwrap() {
        Action::MirrorTree { from, to } => {
            carry_out(&copy_dir_all(&from, &to, &listing), &mut files, &mut dirs);
        }
        other => panic!("{:?}", other),
    }

    let mut i = 0;
    for sdir in dirs_in {
        assert!(dirs.contains(&s(sdir)));
        for fname in names {
            let p = format!("{sdir}/{fname}");
            let actual = &files.iter().find(|f| f.0 == p).unwrap().1;
            assert_eq!(actual, &contents[i]);
            i += 1;
        }
    }
}

#[test]
fn an_empty_directory_survives_the_round_trip() {
    let listing = vec![dir("empty", Vec::new()), file("foo")];
    let mut files = vec![(s("a/foo"), bytes_for(7))];
    let mut dirs = vec![s("a"), s("a/empty")];
    carry_out(&copy_dir_all("a", "a.bak.d", &listing), &mut files, &mut dirs);
    files.retain(|f| !f.0.starts_with("a/"));
    dirs.retain(|d| d != "a" && d != "a/empty");
    carry_out(&copy_dir_all("a.bak.d", "out/a", &listing), &mut files, &mut dirs);
    assert!(dirs.contains(&s("out/a")));
    assert!(dirs.contains(&s("out/a/empty")));
    assert_eq!(files.iter().find(|f| f.0 == "out/a/foo").unwrap().1, bytes_for(7));
}

#[test]
fn mirroring_twice_is_mirroring_once() {
    let listing = vec![file("foo"), dir("ni", vec![file("bar")])];
    let mut files = vec![(s("a/foo"), bytes_for(0)), (s("a/ni/bar"), bytes_for(1))];
    let mut dirs = vec![s("a"), s("a/ni")];
    let steps = copy_dir_all("a", "a.bak.d", &listing);

    carry_out(&steps, &mut files, &mut dirs);
    let once = (sorted(files.clone()), dirs.clone());
    carry_out(&steps, &mut files, &mut dirs);
    assert_eq!((sorted(files), dirs), once);
    assert_eq!(once.0.len(), 4);
    assert_eq!(once.0[1], (s("a.bak.d/ni/bar"), bytes_for(1)));
}
