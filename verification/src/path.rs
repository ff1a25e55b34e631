//! Artifact naming: how a backup's path is derived from its source, and how
//! an artifact's path tells what it is and what it came from.
//!
//! Paths are plain text with `/` between components. Every rule here is
//! stated over the characters of the path alone; nothing is looked up on disk.

use vstd::prelude::*;
use crate::error::Error;
use crate::text::chars_of;

verus! {

/// The format of a backup artifact, read off the end of its name.
#[derive(Clone, Copy, Debug, PartialEq, Eq, Structural)]
pub enum ArtifactClass {
    /// `.bak`: a verbatim copy of one file.
    PlainFile,
    /// `.bak.d`: a directory that mirrors the source tree.
    PlainDir,
    /// `.tar.zstd` or `.tar.zst`: a compressed archive.
    Archive,
    /// None of the above.
    Unknown,
}

/// Suffix of a verbatim file copy.
pub open spec fn plain_file_suffix() -> Seq<char> {
    seq!['.', 'b', 'a', 'k']
}

/// Suffix of a mirrored directory.
pub open spec fn plain_dir_suffix() -> Seq<char> {
    seq!['.', 'b', 'a', 'k', '.', 'd']
}

/// Suffix given to every archive this library plans.
pub open spec fn archive_suffix() -> Seq<char> {
    seq!['.', 't', 'a', 'r', '.', 'z', 's', 't', 'd']
}

/// The shorter archive suffix, accepted on restore.
pub open spec fn archive_suffix_short() -> Seq<char> {
    seq!['.', 't', 'a', 'r', '.', 'z', 's', 't']
}

/// `s` ends with the text `suffix`.
pub open spec fn ends_with(s: Seq<char>, suffix: Seq<char>) -> bool {
    suffix.len() <= s.len() && s.subrange(s.len() - suffix.len(), s.len() as int) == suffix
}

/// `p` without what counts for nothing at its end: separators, and
/// components that are a single dot. So `a/b/`, `a/b/.` and `a/b/./` all come
/// down to `a/b`.
pub open spec fn trim_end(p: Seq<char>) -> Seq<char>
    decreases p.len(),
{
    if p.len() > 0 && p.last() == '/' {
        trim_end(p.drop_last())
    } else if p.len() >= 2 && p.last() == '.' && p[p.len() - 2] == '/' {
        trim_end(p.take(p.len() - 2))
    } else {
        p
    }
}

/// The text of `p` after its last separator; all of `p` where it has none.
pub open spec fn last_segment(p: Seq<char>) -> Seq<char>
    decreases p.len(),
{
    if p.len() == 0 || p.last() == '/' {
        Seq::empty()
    } else {
        last_segment(p.drop_last()).push(p.last())
    }
}

/// Whether `name` can stand as the name of a file or directory: it is not
/// empty and is neither `.` nor `..`.
pub open spec fn is_name(name: Seq<char>) -> bool {
    name.len() > 0 && name != seq!['.'] && name != seq!['.', '.']
}

/// The final component of `p`: the last segment once trailing separators and
/// single-dot components are set aside, provided it is a name.
pub open spec fn final_component(p: Seq<char>) -> Option<Seq<char>> {
    let name = last_segment(trim_end(p));
    if is_name(name) {
        Some(name)
    } else {
        None
    }
}

/// What comes before the final component in `p`: nothing, or the text up to
/// and with the separator in front of it.
pub open spec fn parent_text(p: Seq<char>) -> Seq<char> {
    let stem = trim_end(p);
    stem.take(stem.len() - last_segment(stem).len())
}

/// `text` can be appended to a name: it holds no separator.
pub open spec fn is_suffix_text(text: Seq<char>) -> bool {
    forall|i: int| 0 <= i < text.len() ==> text[i] != '/'
}

/// The path that `suffix` appended to the final component of `p` gives; `None`
/// where `p` has no final component.
pub open spec fn with_suffix(p: Seq<char>, suffix: Seq<char>) -> Option<Seq<char>> {
    if final_component(p) is Some {
        Some(trim_end(p) + suffix)
    } else {
        None
    }
}

/// The path of the entry `name` inside the directory `dir`.
pub open spec fn joined(dir: Seq<char>, name: Seq<char>) -> Seq<char> {
    if name.len() > 0 && name[0] == '/' {
        name
    } else if dir.len() == 0 || dir.last() == '/' {
        dir + name
    } else {
        dir + seq!['/'] + name
    }
}

/// `name` can name an entry of a directory: it is not empty and holds no
/// separator.
pub open spec fn is_component(name: Seq<char>) -> bool {
    name.len() > 0 && forall|i: int| 0 <= i < name.len() ==> name[i] != '/'
}

/// `x` is the path of something inside the directory `dir`: it goes on from
/// the text of `dir`, across a separator.
pub open spec fn below(dir: Seq<char>, x: Seq<char>) -> bool {
    &&& dir.len() < x.len()
    &&& x.take(dir.len() as int) == dir
    &&& (dir.len() == 0 || dir.last() == '/' || x[dir.len() as int] == '/')
}

/// `x` is `base` itself or the path of something inside it.
pub open spec fn at_or_below(base: Seq<char>, x: Seq<char>) -> bool {
    x == base || below(base, x)
}

/// The suffix by which `p` is recognised as an artifact, the more specific
/// suffixes tried first.
pub open spec fn matched_suffix(p: Seq<char>) -> Option<Seq<char>> {
    if ends_with(p, archive_suffix()) {
        Some(archive_suffix())
    } else if ends_with(p, archive_suffix_short()) {
        Some(archive_suffix_short())
    } else if ends_with(p, plain_dir_suffix()) {
        Some(plain_dir_suffix())
    } else if ends_with(p, plain_file_suffix()) {
        Some(plain_file_suffix())
    } else {
        None
    }
}

/// The class of the artifact named `p`: the class of the first suffix, in
/// the order from the most specific to the least, that `p` ends with.
pub open spec fn classify(p: Seq<char>) -> ArtifactClass {
    if ends_with(p, archive_suffix()) || ends_with(p, archive_suffix_short()) {
        ArtifactClass::Archive
    } else if ends_with(p, plain_dir_suffix()) {
        ArtifactClass::PlainDir
    } else if ends_with(p, plain_file_suffix()) {
        ArtifactClass::PlainFile
    } else {
        ArtifactClass::Unknown
    }
}

/// `p` without the suffix that marks it as an artifact.
pub open spec fn without_suffix(p: Seq<char>) -> Option<Seq<char>> {
    match matched_suffix(p) {
        Some(s) => Some(p.take(p.len() - s.len())),
        None => None,
    }
}

/// `p` without the dot and the text `suffix` at its end; `None` where it
/// does not end so.
pub open spec fn without_extension(p: Seq<char>, suffix: Seq<char>) -> Option<Seq<char>> {
    if ends_with(p, seq!['.'] + suffix) {
        Some(p.take(p.len() - suffix.len() - 1))
    } else {
        None
    }
}

/// Whether the characters `s` end with the characters `suffix`.
fn chars_end_with(s: &Vec<char>, suffix: &Vec<char>) -> (r: bool)
    ensures
        r == ends_with(s@, suffix@),
{
    let n: usize = s.len();
    let m: usize = suffix.len();
    if m > n {
        return false;
    }
    let mut i: usize = 0;
    while i < m
        invariant
            i <= m <= n,
            n == s.len(),
            m == suffix.len(),
            forall|j: int| 0 <= j < i ==> s@[n - m + j] == suffix@[j],
        decreases m - i,
    {
        if s[n - m + i] != suffix[i] {
            return false;
        }
        i += 1;
    }
    assert(s@.subrange(n - m, n as int) =~= suffix@);
    true
}

/// Where the final component lies in `chars`: it runs from the first index
/// returned up to the second, and what follows the second counts for nothing.
fn name_bounds(chars: &Vec<char>) -> (b: (usize, usize))
    ensures
        b.0 <= b.1 <= chars.len(),
        chars@.take(b.1 as int) == trim_end(chars@),
        chars@.subrange(b.0 as int, b.1 as int) == last_segment(trim_end(chars@)),
{
    let mut end: usize = chars.len();
    assert(chars@.take(end as int) =~= chars@);
    loop
        invariant
            end <= chars.len(),
            trim_end(chars@) == trim_end(chars@.take(end as int)),
        ensures
            trim_end(chars@) == chars@.take(end as int),
        decreases end,
    {
        if end > 0 && chars[end - 1] == '/' {
            assert(chars@.take(end as int).drop_last() =~= chars@.take(end - 1));
            end -= 1;
        } else if end >= 2 && chars[end - 1] == '.' && chars[end - 2] == '/' {
            assert(chars@.take(end as int).take(end - 2) =~= chars@.take(end - 2));
            end -= 2;
        } else {
            break ;
        }
    }
    let mut start: usize = end;
    while start > 0 && chars[start - 1] != '/'
        invariant
            start <= end <= chars.len(),
            last_segment(chars@.take(end as int)) == last_segment(chars@.take(start as int))
                + chars@.subrange(start as int, end as int),
        decreases start,
    {
        assert(chars@.take(start as int).drop_last() =~= chars@.take(start - 1));
        start -= 1;
    }
    (start, end)
}

/// Whether the characters of `chars` from `start` up to `end` make a name.
fn is_name_at(chars: &Vec<char>, start: usize, end: usize) -> (r: bool)
    requires
        start <= end <= chars.len(),
    ensures
        r == is_name(chars@.subrange(start as int, end as int)),
{
    let len: usize = end - start;
    let ghost name = chars@.subrange(start as int, end as int);
    proof {
        assert(seq!['.'].len() == 1);
        assert(seq!['.', '.'].len() == 2);
        if len == 1 && name[0] == '.' {
            assert(name =~= seq!['.']);
        }
        if len == 2 && name[0] == '.' && name[1] == '.' {
            assert(name =~= seq!['.', '.']);
        }
    }
    if len == 0 {
        false
    } else if len == 1 {
        chars[start] != '.'
    } else if len == 2 {
        !(chars[start] == '.' && chars[start + 1] == '.')
    } else {
        true
    }
}

/// The final component of `path`, if it has one.
///
/// Trailing separators and single-dot components are set aside first; what
/// then follows the last separator is the component, unless it is empty, `.`
/// or `..`.
pub fn file_name(path: &str) -> (r: Option<String>)
    ensures
        match final_component(path@) {
            Some(name) => r matches Some(s) && s@ == name,
            None => r is None,
        },
{
    let chars = chars_of(path);
    let (start, end): (usize, usize) = name_bounds(&chars);
    if is_name_at(&chars, start, end) {
        Some(String::from_str(path.substring_char(start, end)))
    } else {
        None
    }
}

/// Appends `postfix` to the final component of `path`, keeping what comes
/// before it. Separators and single-dot components at the end of `path` are
/// dropped, so that the postfix lands on the component itself.
///
/// Fails with `InvalidPath` exactly when `path` has no final component.
pub fn add_extension(path: &str, postfix: &str) -> (r: Result<String, Error>)
    ensures
        match with_suffix(path@, postfix@) {
            Some(artifact) => r matches Ok(s) && s@ == artifact,
            None => r matches Err(e) && e == Error::InvalidPath,
        },
{
    let chars = chars_of(path);
    let (start, end): (usize, usize) = name_bounds(&chars);
    if !is_name_at(&chars, start, end) {
        return Err(Error::InvalidPath);
    }
    let mut s = String::from_str(path.substring_char(0, end));
    s.append(postfix);
    Ok(s)
}

/// Takes `.` and `suffix` off the end of `path`.
///
/// Fails with `UnrecognizedFormat` exactly when `path` does not end with a
/// dot followed by `suffix`.
pub fn remove_extension(path: &str, suffix: &str) -> (r: Result<String, Error>)
    ensures
        match without_extension(path@, suffix@) {
            Some(stem) => r matches Ok(s) && s@ == stem,
            None => r matches Err(e) && e == Error::UnrecognizedFormat,
        },
{
    let chars = chars_of(path);
    let mut dotted: Vec<char> = Vec::new();
    dotted.push('.');
    let mut tail = chars_of(suffix);
    dotted.append(&mut tail);
    if !chars_end_with(&chars, &dotted) {
        return Err(Error::UnrecognizedFormat);
    }
    let keep: usize = chars.len() - dotted.len();
    Ok(String::from_str(path.substring_char(0, keep)))
}

/// The length and the class of the suffix by which `chars` is recognised as
/// an artifact, the more specific suffixes tried first.
fn match_suffix(chars: &Vec<char>) -> (r: Option<(usize, ArtifactClass)>)
    ensures
        match matched_suffix(chars@) {
            Some(suffix) => r == Some((suffix.len() as usize, classify(chars@))),
            None => r is None && classify(chars@) == ArtifactClass::Unknown,
        },
{
    proof {
        reveal_strlit(".tar.zstd");
        reveal_strlit(".tar.zst");
        reveal_strlit(".bak.d");
        reveal_strlit(".bak");
        assert(".tar.zstd"@ =~= archive_suffix());
        assert(".tar.zst"@ =~= archive_suffix_short());
        assert(".bak.d"@ =~= plain_dir_suffix());
        assert(".bak"@ =~= plain_file_suffix());
    }
    let long = chars_of(".tar.zstd");
    let short = chars_of(".tar.zst");
    let dir = chars_of(".bak.d");
    let file = chars_of(".bak");
    if chars_end_with(chars, &long) {
        Some((long.len(), ArtifactClass::Archive))
    } else if chars_end_with(chars, &short) {
        Some((short.len(), ArtifactClass::Archive))
    } else if chars_end_with(chars, &dir) {
        Some((dir.len(), ArtifactClass::PlainDir))
    } else if chars_end_with(chars, &file) {
        Some((file.len(), ArtifactClass::PlainFile))
    } else {
        None
    }
}

/// The class of the artifact named `path`, by its suffix alone.
pub fn classify_artifact(path: &str) -> (r: ArtifactClass)
    ensures
        r == classify(path@),
{
    match match_suffix(&chars_of(path)) {
        Some((_, class)) => class,
        None => ArtifactClass::Unknown,
    }
}

/// Takes the suffix that marks `path` as an artifact off its end.
///
/// Fails with `UnrecognizedFormat` exactly when `path` carries none of the
/// known suffixes.
pub fn strip_suffix(path: &str) -> (r: Result<String, Error>)
    ensures
        match without_suffix(path@) {
            Some(stem) => r matches Ok(s) && s@ == stem,
            None => r matches Err(e) && e == Error::UnrecognizedFormat,
        },
{
    let chars = chars_of(path);
    match match_suffix(&chars) {
        Some((cut, _)) => {
            let keep: usize = chars.len() - cut;
            Ok(String::from_str(path.substring_char(0, keep)))
        },
        None => Err(Error::UnrecognizedFormat),
    }
}

/// The path of the entry `name` inside the directory `dir`.
///
/// A `name` that starts at the root stands for itself. Otherwise one
/// separator is put between the two, unless `dir` is empty or already ends
/// with one.
pub fn join(dir: &str, name: &str) -> (r: String)
    ensures
        r@ == joined(dir@, name@),
{
    let n: usize = name.unicode_len();
    if n > 0 && name.get_char(0) == '/' {
        return String::from_str(name);
    }
    let d: usize = dir.unicode_len();
    let mut s = String::from_str(dir);
    if d > 0 && dir.get_char(d - 1) != '/' {
        proof {
            reveal_strlit("/");
        }
        s.append("/");
    }
    s.append(name);
    s
}

} // verus!
