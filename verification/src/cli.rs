//! Which command a bare invocation stands for.

use vstd::prelude::*;
use crate::text::{chars_of, contains, contains_text, same_text};

verus! {

/// The two things the tool does.
#[derive(Clone, Copy, Debug, PartialEq, Eq, Structural)]
pub enum Command {
    Backup,
    Restore,
}

/// `first` begins like an option.
pub open spec fn is_option(first: Seq<char>) -> bool {
    first.len() > 0 && first[0] == '-'
}

/// `first` is one of the names under which a command can be called for.
pub open spec fn is_command_name(first: Seq<char>) -> bool {
    ||| first == seq!['r']
    ||| first == seq!['r', 'e', 's']
    ||| first == seq!['r', 'e', 's', 't', 'o', 'r', 'e']
    ||| first == seq!['b']
    ||| first == seq!['b', 'a', 'k']
    ||| first == seq!['b', 'a', 'c', 'k', 'u', 'p']
}

/// The command to put before the first argument `first`, where it names
/// none itself: a path with `bak` in it is taken for an artifact to restore,
/// any other for a source to back up.
pub open spec fn implied(first: Seq<char>) -> Option<Command> {
    if is_option(first) || is_command_name(first) {
        None
    } else if contains_text(first, seq!['b', 'a', 'k']) {
        Some(Command::Restore)
    } else {
        Some(Command::Backup)
    }
}

/// Tells which command to insert before the first argument, if any.
///
/// An argument that is an option or names a command stands as it is. Any
/// other is a path: one that holds `bak` asks for a restore, every other for
/// a backup.
pub fn implied_command(first: &str) -> (r: Option<Command>)
    ensures
        r == implied(first@),
{
    proof {
        reveal_strlit("r");
        reveal_strlit("res");
        reveal_strlit("restore");
        reveal_strlit("b");
        reveal_strlit("bak");
        reveal_strlit("backup");
        assert("r"@ =~= seq!['r']);
        assert("res"@ =~= seq!['r', 'e', 's']);
        assert("restore"@ =~= seq!['r', 'e', 's', 't', 'o', 'r', 'e']);
        assert("b"@ =~= seq!['b']);
        assert("bak"@ =~= seq!['b', 'a', 'k']);
        assert("backup"@ =~= seq!['b', 'a', 'c', 'k', 'u', 'p']);
    }
    let chars = chars_of(first);
    if chars.len() > 0 && chars[0] == '-' {
        return None;
    }
    if same_text(first, "r") || same_text(first, "res") || same_text(first, "restore")
        || same_text(first, "b") || same_text(first, "bak") || same_text(first, "backup") {
        return None;
    }
    if contains(first, "bak") {
        Some(Command::Restore)
    } else {
        Some(Command::Backup)
    }
}

} // verus!
