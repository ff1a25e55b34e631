//! Small helpers for reading `&str` values as sequences of characters.

use vstd::prelude::*;

verus! {

/// The characters of `s`, in order, for constant-time indexing.
pub fn chars_of(s: &str) -> (v: Vec<char>)
    ensures
        v@ == s@,
{
    let mut v: Vec<char> = Vec::new();
    for c in it: s.chars()
        invariant
            it.seq() == s@,
            v@ == s@.take(it.index() as int),
    {
        v.push(c);
    }
    v
}

/// Whether `a` and `b` hold the same text.
pub fn same_text(a: &str, b: &str) -> (r: bool)
    ensures
        r == (a@ == b@),
{
    let x = chars_of(a);
    let y = chars_of(b);
    if x.len() != y.len() {
        return false;
    }
    let mut i: usize = 0;
    while i < x.len()
        invariant
            i <= x.len(),
            x.len() == y.len(),
            x@ == a@,
            y@ == b@,
            forall|j: int| 0 <= j < i ==> x@[j] == y@[j],
        decreases x.len() - i,
    {
        if x[i] != y[i] {
            return false;
        }
        i += 1;
    }
    assert(x@ =~= y@);
    true
}

/// `s` holds the text `needle` somewhere inside it.
pub open spec fn contains_text(s: Seq<char>, needle: Seq<char>) -> bool {
    exists|i: int|
        0 <= i <= s.len() - needle.len() && #[trigger] s.subrange(i, i + needle.len()) == needle
}

/// Whether `s` holds the text `needle` somewhere inside it.
pub fn contains(s: &str, needle: &str) -> (r: bool)
    ensures
        r == contains_text(s@, needle@),
{
    let x = chars_of(s);
    let y = chars_of(needle);
    let n: usize = x.len();
    let m: usize = y.len();
    if m > n {
        return false;
    }
    let mut i: usize = 0;
    while i <= n - m
        invariant
            m <= n,
            n == x.len(),
            m == y.len(),
            i <= n - m + 1,
            x@ == s@,
            y@ == needle@,
            forall|k: int| 0 <= k < i ==> #[trigger] x@.subrange(k, k + m) != y@,
        decreases n - m + 1 - i,
    {
        let mut j: usize = 0;
        while j < m && x[i + j] == y[j]
            invariant
                j <= m,
                i + m <= n,
                n == x.len(),
                m == y.len(),
                forall|k: int| 0 <= k < j ==> x@[i + k] == y@[k],
            decreases m - j,
        {
            j += 1;
        }
        if j == m {
            assert(x@.subrange(i as int, i + m) =~= y@);
            return true;
        }
        i += 1;
    }
    false
}

} // verus!
