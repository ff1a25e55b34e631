use localbak::error::Error;
use localbak::path::{
    add_extension, classify_artifact, file_name, join, remove_extension, strip_suffix,
    ArtifactClass,
};

#[test]
fn add_extension_appends_to_final_component() {
    assert_eq!(add_extension("foo", ".bak"), Ok("foo.bak".to_string()));
    assert_eq!(add_extension("a/b/foo", ".bak.d"), Ok("a/b/foo.bak.d".to_string()));
    assert_eq!(add_extension("/abs/foo.txt", ".tar.zstd"), Ok("/abs/foo.txt.tar.zstd".to_string()));
}

#[test]
fn add_extension_drops_trailing_separators() {
    assert_eq!(add_extension("a/dir/", ".bak.d"), Ok("a/dir.bak.d".to_string()));
    assert_eq!(add_extension("dir///", ".tar.zstd"), Ok("dir.tar.zstd".to_string()));
}

#[test]
fn add_extension_refuses_paths_without_a_name() {
    assert_eq!(add_extension("/", ".bak"), Err(Error::InvalidPath));
    assert_eq!(add_extension("", ".bak"), Err(Error::InvalidPath));
    assert_eq!(add_extension("a/..", ".bak"), Err(Error::InvalidPath));
    assert_eq!(add_extension(".", ".bak"), Err(Error::InvalidPath));
    assert_eq!(add_extension("./", ".bak"), Err(Error::InvalidPath));
    assert_eq!(add_extension("./.", ".bak"), Err(Error::InvalidPath));
    assert_eq!(add_extension("/.", ".bak"), Err(Error::InvalidPath));
    assert_eq!(add_extension("a/../.", ".bak"), Err(Error::InvalidPath));
}

#[test]
fn add_extension_drops_trailing_dot_components() {
    assert_eq!(add_extension("a/.", ".bak.d"), Ok("a.bak.d".to_string()));
    assert_eq!(add_extension("a/./", ".bak"), Ok("a.bak".to_string()));
    assert_eq!(add_extension("a/b/.", ".bak.d"), Ok("a/b.bak.d".to_string()));
    assert_eq!(add_extension("/a/b/.//./", ".tar.zstd"), Ok("/a/b.tar.zstd".to_string()));
    assert_eq!(add_extension("./a", ".bak"), Ok("./a.bak".to_string()));
    assert_eq!(add_extension("a/.b", ".bak"), Ok("a/.b.bak".to_string()));
    assert_eq!(add_extension("a/b.", ".bak"), Ok("a/b..bak".to_string()));
}

#[test]
fn add_extension_does_not_look_for_an_earlier_suffix() {
    assert_eq!(add_extension("foo.bak", ".bak"), Ok("foo.bak.bak".to_string()));
}

#[test]
fn add_extension_keeps_dotted_names() {
    assert_eq!(add_extension("...", ".bak"), Ok("....bak".to_string()));
    assert_eq!(add_extension(".hidden", ".bak"), Ok(".hidden.bak".to_string()));
}

#[test]
fn remove_extension_takes_dot_and_suffix() {
    assert_eq!(remove_extension("foo.bak", "bak"), Ok("foo".to_string()));
    assert_eq!(remove_extension("a/foo.bak.d", "bak.d"), Ok("a/foo".to_string()));
    assert_eq!(remove_extension("foo.tar.zstd", "tar.zstd"), Ok("foo".to_string()));
    assert_eq!(remove_extension(".bak", "bak"), Ok("".to_string()));
}

#[test]
fn remove_extension_refuses_other_endings() {
    assert_eq!(remove_extension("foobak", "bak"), Err(Error::UnrecognizedFormat));
    assert_eq!(remove_extension("foo.bak.d", "bak"), Err(Error::UnrecognizedFormat));
    assert_eq!(remove_extension("ak", "bak"), Err(Error::UnrecognizedFormat));
    assert_eq!(remove_extension("", "bak"), Err(Error::UnrecognizedFormat));
}

#[test]
fn remove_extension_counts_characters_not_bytes() {
    assert_eq!(remove_extension("caf\u{e9}.bak", "bak"), Ok("caf\u{e9}".to_string()));
    assert_eq!(
        add_extension("d\u{e9}p\u{f4}t/", ".bak.d"),
        Ok("d\u{e9}p\u{f4}t.bak.d".to_string())
    );
}

#[test]
fn each_known_suffix_has_its_class() {
    assert_eq!(classify_artifact("foo.tar.zstd"), ArtifactClass::Archive);
    assert_eq!(classify_artifact("foo.tar.zst"), ArtifactClass::Archive);
    assert_eq!(classify_artifact("foo.bak.d"), ArtifactClass::PlainDir);
    assert_eq!(classify_artifact("foo.bak"), ArtifactClass::PlainFile);
    assert_eq!(classify_artifact("dir/x.y.bak"), ArtifactClass::PlainFile);
}

#[test]
fn other_names_are_unknown() {
    assert_eq!(classify_artifact("foo"), ArtifactClass::Unknown);
    assert_eq!(classify_artifact(""), ArtifactClass::Unknown);
    assert_eq!(classify_artifact("foo.bak.x"), ArtifactClass::Unknown);
    assert_eq!(classify_artifact("foo.tar"), ArtifactClass::Unknown);
    assert_eq!(classify_artifact("foo.zstd"), ArtifactClass::Unknown);
    assert_eq!(classify_artifact("foo.bak/"), ArtifactClass::Unknown);
}

#[test]
fn a_suffix_needs_its_dot() {
    assert_eq!(classify_artifact("foobak"), ArtifactClass::Unknown);
    assert_eq!(classify_artifact("footar.zstd"), ArtifactClass::Unknown);
    assert_eq!(classify_artifact("foobak.d"), ArtifactClass::Unknown);
}

#[test]
fn a_bare_suffix_is_still_classified() {
    assert_eq!(classify_artifact(".bak"), ArtifactClass::PlainFile);
    assert_eq!(classify_artifact(".bak.d"), ArtifactClass::PlainDir);
    assert_eq!(classify_artifact(".tar.zst"), ArtifactClass::Archive);
}

#[test]
fn the_last_suffix_decides() {
    assert_eq!(classify_artifact("foo.bak.tar.zstd"), ArtifactClass::Archive);
    assert_eq!(classify_artifact("foo.tar.zstd.bak"), ArtifactClass::PlainFile);
    assert_eq!(classify_artifact("foo.bak.d.bak"), ArtifactClass::PlainFile);
    assert_eq!(classify_artifact("foo.bak.bak.d"), ArtifactClass::PlainDir);
}

#[test]
fn strip_suffix_takes_the_matched_suffix() {
    assert_eq!(strip_suffix("foo.tar.zstd"), Ok("foo".to_string()));
    assert_eq!(strip_suffix("foo.tar.zst"), Ok("foo".to_string()));
    assert_eq!(strip_suffix("a/foo.bak.d"), Ok("a/foo".to_string()));
    assert_eq!(strip_suffix("a/foo.bak"), Ok("a/foo".to_string()));
    assert_eq!(strip_suffix("foo.bak.bak"), Ok("foo.bak".to_string()));
    assert_eq!(strip_suffix("foo.txt"), Err(Error::UnrecognizedFormat));
}

#[test]
fn file_name_is_the_final_component() {
    assert_eq!(file_name("foo"), Some("foo".to_string()));
    assert_eq!(file_name("a/b/c.txt"), Some("c.txt".to_string()));
    assert_eq!(file_name("/a/b/"), Some("b".to_string()));
    assert_eq!(file_name("/"), None);
    assert_eq!(file_name(""), None);
    assert_eq!(file_name(".."), None);
    assert_eq!(file_name("a/.."), None);
    assert_eq!(file_name("."), None);
    assert_eq!(file_name("a/."), Some("a".to_string()));
    assert_eq!(file_name("a/b/./"), Some("b".to_string()));
    assert_eq!(file_name("/."), None);
}

#[test]
fn join_puts_one_separator_between() {
    assert_eq!(join("out", "foo"), "out/foo");
    assert_eq!(join("out/", "foo"), "out/foo");
    assert_eq!(join("/", "foo"), "/foo");
    assert_eq!(join("", "foo"), "foo");
    assert_eq!(join("a/b", "c"), "a/b/c");
    assert_eq!(join("out", ""), "out/");
}

#[test]
fn join_lets_a_rooted_name_stand() {
    assert_eq!(join("out", "/etc"), "/etc");
}
