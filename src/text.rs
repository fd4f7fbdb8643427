//! Character-level tests on URIs and MIME types.
use vstd::prelude::*;
use vstd::string::*;

verus! {

/// `s` begins with `prefix`.
pub open spec fn has_prefix(s: Seq<char>, prefix: Seq<char>) -> bool {
    prefix.len() <= s.len() && s.subrange(0, prefix.len() as int) == prefix
}

/// `needle` occurs in `s` at position `i`.
pub open spec fn occurs_at(s: Seq<char>, needle: Seq<char>, i: int) -> bool {
    0 <= i && i + needle.len() <= s.len() && s.subrange(i, i + needle.len()) == needle
}

/// `needle` occurs somewhere in `s`.
pub open spec fn has_substring(s: Seq<char>, needle: Seq<char>) -> bool {
    exists|i: int| occurs_at(s, needle, i)
}

/// Whether `needle` occurs in `s` at char position `at`.
fn matches_at(s: &str, needle: &str, at: usize) -> (r: bool)
    requires
        at as int + needle@.len() <= s@.len(),
        s@.len() <= usize::MAX,
    ensures
        r == occurs_at(s@, needle@, at as int),
{
    let n = needle.unicode_len();
    let mut j: usize = 0;
    while j < n
        invariant
            n == needle@.len(),
            at as int + n <= s@.len(),
            s@.len() <= usize::MAX,
            j <= n,
            forall|k: int| 0 <= k < j ==> s@[at + k] == needle@[k],
        decreases n - j,
    {
        if s.get_char(at + j) != needle.get_char(j) {
            assert(s@.subrange(at as int, at + n)[j as int] != needle@[j as int]);
            return false;
        }
        j = j + 1;
    }
    assert(s@.subrange(at as int, at + n) =~= needle@);
    true
}

/// Whether `s` begins with `prefix`.
pub fn starts_with(s: &str, prefix: &str) -> (r: bool)
    ensures
        r == has_prefix(s@, prefix@),
{
    let n = s.unicode_len();
    let m = prefix.unicode_len();
    if m > n {
        return false;
    }
    matches_at(s, prefix, 0)
}

/// Whether `needle` occurs anywhere in `s`.
pub fn contains(s: &str, needle: &str) -> (r: bool)
    ensures
        r == has_substring(s@, needle@),
{
    let n = s.unicode_len();
    let m = needle.unicode_len();
    if m > n {
        return false;
    }
    let last = n - m;
    let mut i: usize = 0;
    loop
        invariant
            n == s@.len(),
            m == needle@.len(),
            last == n - m,
            i <= last,
            forall|k: int| 0 <= k < i ==> !occurs_at(s@, needle@, k),
        decreases last - i,
    {
        if matches_at(s, needle, i) {
            return true;
        }
        if i == last {
            assert forall|k: int| !occurs_at(s@, needle@, k) by {
                if 0 <= k < i {
                }
            }
            return false;
        }
        i = i + 1;
    }
}

/// `j` is where the extension of `uri` starts: just after a '.' that is
/// followed by neither '.' nor '/'.
pub open spec fn is_extension_start(uri: Seq<char>, j: int) -> bool {
    &&& 0 < j <= uri.len()
    &&& uri[j - 1] == '.'
    &&& forall|k: int| j <= k < uri.len() ==> uri[k] != '.' && uri[k] != '/'
}

/// Char position where the extension of the last path segment of `uri`
/// starts, or `None` when that segment has no '.'.
pub fn extension_start(uri: &str) -> (r: Option<usize>)
    ensures
        match r {
            Some(j) => is_extension_start(uri@, j as int),
            None => forall|j: int| !is_extension_start(uri@, j),
        },
{
    let n = uri.unicode_len();
    let mut i: usize = n;
    while i > 0
        invariant
            n == uri@.len(),
            i <= n,
            forall|k: int| i <= k < n ==> uri@[k] != '.' && uri@[k] != '/',
        decreases i,
    {
        let c = uri.get_char(i - 1);
        if c == '.' {
            return Some(i);
        }
        if c == '/' {
            assert forall|j: int| !is_extension_start(uri@, j) by {
                if is_extension_start(uri@, j) {
                    if j <= i - 1 {
                        assert(uri@[i - 1] != '/');
                    } else {
                        assert(uri@[j - 1] != '.');
                    }
                }
            }
            return None;
        }
        i = i - 1;
    }
    assert forall|j: int| !is_extension_start(uri@, j) by {
        if is_extension_start(uri@, j) {
            assert(uri@[j - 1] != '.');
        }
    }
    None
}

/// Whether two strings hold the same characters.
pub fn same_text(a: &str, b: &str) -> (r: bool)
    ensures
        r == (a@ == b@),
{
    let n = a.unicode_len();
    let m = b.unicode_len();
    if n != m {
        return false;
    }
    let r = matches_at(a, b, 0);
    assert(a@.subrange(0, n as int) =~= a@);
    r
}

} // verus!
