//! Reading a yes-or-no answer, and deciding with it whether a restored
//! artifact is removed.

use vstd::prelude::*;
use crate::kind::EntryKind;
use crate::text::same_text;

verus! {

/// What a line of input says to a yes-or-no question.
#[derive(Clone, Copy, Debug, PartialEq, Eq, Structural)]
pub enum Answer {
    Yes,
    No,
    /// Neither; the question is asked again.
    Unrecognized,
}

/// Where the removal of a restored artifact stands.
#[derive(Clone, Copy, Debug, PartialEq, Eq, Structural)]
pub enum Decision {
    /// The artifact stays.
    Keep,
    /// The artifact is removed.
    Remove,
    /// The user has to be asked first.
    Ask,
}

/// How an artifact is removed.
#[derive(Clone, Copy, Debug, PartialEq, Eq, Structural)]
pub enum Removal {
    /// Remove the directory and all below it.
    RemoveTree,
    /// Remove the single file or link.
    RemoveFile,
    /// Leave it and report it.
    Skip,
}

/// What `str::trim` returns for the text `s`.
pub uninterp spec fn trimmed(s: Seq<char>) -> Seq<char>;

/// What `str::to_lowercase` returns for the text `s`.
pub uninterp spec fn lowercased(s: Seq<char>) -> Seq<char>;

/// `str::trim` takes the leading and trailing whitespace, as Unicode defines
/// it, off a string slice. The result is known here only by name.
pub assume_specification[ str::trim ](s: &str) -> (r: &str)
    ensures
        r@ == trimmed(s@),
;

/// `str::to_lowercase` gives the lowercase equivalent, as Unicode defines it,
/// of a string slice. The result is known here only by name.
pub assume_specification[ str::to_lowercase ](s: &str) -> (r: String)
    ensures
        r@ == lowercased(s@),
;

/// The answer that the normalized text `text` stands for: `y` and `yes` say
/// yes; `n`, `no` and the empty text say no.
pub open spec fn answer_of(text: Seq<char>) -> Answer {
    if text == seq!['y'] || text == seq!['y', 'e', 's'] {
        Answer::Yes
    } else if text.len() == 0 || text == seq!['n'] || text == seq!['n', 'o'] {
        Answer::No
    } else {
        Answer::Unrecognized
    }
}

/// Where removal stands once a restore has ended: a failed restore never
/// removes, a restore without the delete flag neither, and with the flag the
/// user is asked unless consent was given beforehand.
pub open spec fn decision_after_restore(
    restored: bool,
    delete: bool,
    preconfirmed: bool,
) -> Decision {
    if !restored || !delete {
        Decision::Keep
    } else if preconfirmed {
        Decision::Remove
    } else {
        Decision::Ask
    }
}

/// Where removal stands once the user was asked and gave `answer`.
pub open spec fn decision_after_answer(answer: Answer) -> Decision {
    match answer {
        Answer::Yes => Decision::Remove,
        Answer::No => Decision::Keep,
        Answer::Unrecognized => Decision::Ask,
    }
}

/// How to remove an entry of kind `kind`, which is or is not a symbolic link.
pub open spec fn removal_of(kind: EntryKind, is_link: bool) -> Removal {
    if kind == EntryKind::Directory {
        Removal::RemoveTree
    } else if kind == EntryKind::File || is_link {
        Removal::RemoveFile
    } else {
        Removal::Skip
    }
}

/// Reads an answer that has already been trimmed and put in lower case.
pub fn classify_answer(text: &str) -> (r: Answer)
    ensures
        r == answer_of(text@),
{
    proof {
        reveal_strlit("y");
        reveal_strlit("yes");
        reveal_strlit("n");
        reveal_strlit("no");
        reveal_strlit("");
        assert("y"@ =~= seq!['y']);
        assert("yes"@ =~= seq!['y', 'e', 's']);
        assert("n"@ =~= seq!['n']);
        assert("no"@ =~= seq!['n', 'o']);
        assert(text@.len() == 0 <==> text@ =~= ""@);
    }
    if same_text(text, "y") || same_text(text, "yes") {
        Answer::Yes
    } else if same_text(text, "") || same_text(text, "n") || same_text(text, "no") {
        Answer::No
    } else {
        Answer::Unrecognized
    }
}

/// Reads the answer in a line as the user typed it: surrounding whitespace
/// and letter case do not count.
pub fn confirm(line: &str) -> (r: Answer)
    ensures
        r == answer_of(lowercased(trimmed(line@))),
{
    let normalized = line.trim().to_lowercase();
    classify_answer(normalized.as_str())
}

/// Decides, once a restore has ended, whether its artifact stays, goes, or
/// hangs on the user's answer.
pub fn after_restore(restored: bool, delete: bool, preconfirmed: bool) -> (r: Decision)
    ensures
        r == decision_after_restore(restored, delete, preconfirmed),
{
    if !restored || !delete {
        Decision::Keep
    } else if preconfirmed {
        Decision::Remove
    } else {
        Decision::Ask
    }
}

/// Decides with the user's answer whether the artifact stays or goes; an
/// answer that is neither yes nor no leaves the question open.
pub fn after_answer(answer: Answer) -> (r: Decision)
    ensures
        r == decision_after_answer(answer),
{
    match answer {
        Answer::Yes => Decision::Remove,
        Answer::No => Decision::Keep,
        Answer::Unrecognized => Decision::Ask,
    }
}

/// Chooses how the entry at a path is removed: a directory with all below
/// it, a file or a link by itself, and anything else not at all.
pub fn recursive_remove(kind: EntryKind, is_link: bool) -> (r: Removal)
    ensures
        r == removal_of(kind, is_link),
{
    match kind {
        EntryKind::Directory => Removal::RemoveTree,
        EntryKind::File => Removal::RemoveFile,
        _ => if is_link {
            Removal::RemoveFile
        } else {
            Removal::Skip
        },
    }
}

} // verus!
