//! Paths are plain strings: handlers match them by literal prefix, and
//! directories are derived from the keys of the embedded store.

use vstd::prelude::*;

verus! {

/// `pre` is a literal prefix of `s`.
pub open spec fn has_prefix(s: Seq<char>, pre: Seq<char>) -> bool {
    pre.len() <= s.len() && s.subrange(0, pre.len() as int) == pre
}

/// What is left of `s` once its prefix `pre` is removed.
pub open spec fn without_prefix(s: Seq<char>, pre: Seq<char>) -> Seq<char> {
    s.subrange(pre.len() as int, s.len() as int)
}

/// The folder form of a path: a separator is joined on, unless the path is
/// empty or already ends in one.
pub open spec fn as_folder(p: Seq<char>) -> Seq<char> {
    if p.len() == 0 || p.last() == '/' {
        p
    } else {
        p.push('/')
    }
}

/// Tells whether `pre` is a literal prefix of `s`.
pub fn starts_with(s: &str, pre: &str) -> (r: bool)
    ensures
        r == has_prefix(s@, pre@),
{
    let n = pre.unicode_len();
    if n > s.unicode_len() {
        return false;
    }
    let mut i: usize = 0;
    while i < n
        invariant
            n == pre@.len(),
            n <= s@.len(),
            i <= n,
            forall|j: int| 0 <= j < i ==> s@[j] == pre@[j],
        decreases n - i,
    {
        if s.get_char(i) != pre.get_char(i) {
            assert(s@.subrange(0, n as int)[i as int] != pre@[i as int]);
            return false;
        }
        i = i + 1;
    }
    assert(s@.subrange(0, n as int) =~= pre@);
    true
}

/// Tells whether two paths are the same string.
pub fn same_path(a: &str, b: &str) -> (r: bool)
    ensures
        r == (a@ == b@),
{
    if a.unicode_len() != b.unicode_len() {
        return false;
    }
    let r = starts_with(a, b);
    assert(a@.subrange(0, a@.len() as int) =~= a@);
    r
}

/// Removes the literal prefix `pre` from `s`.
pub fn strip_prefix<'a>(s: &'a str, pre: &str) -> (r: &'a str)
    requires
        has_prefix(s@, pre@),
    ensures
        r@ == without_prefix(s@, pre@),
{
    s.substring_char(pre.unicode_len(), s.unicode_len())
}

/// The folder form of `p`, as `as_folder` states it.
pub fn folder_of(p: &str) -> (r: String)
    ensures
        r@ == as_folder(p@),
{
    let n = p.unicode_len();
    let mut r = p.to_owned();
    if n > 0 && p.get_char(n - 1) == '/' {
        r
    } else if n == 0 {
        r
    } else {
        let sep = "/";
        proof {
            reveal_strlit("/");
        }
        r.append(sep);
        assert(r@ =~= p@.push('/'));
        r
    }
}

} // verus!
