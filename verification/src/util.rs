//! Splitting a raw translation key into a namespace and a dotted path.

use vstd::prelude::*;
use vstd::string::*;

verus! {

/// First position of `c` in `s` at or after `i`, if any.
pub open spec fn find_from(s: Seq<char>, c: char, i: int) -> Option<int>
    decreases s.len() - i,
{
    if i < 0 || i >= s.len() {
        None
    } else if s[i] == c {
        Some(i)
    } else {
        find_from(s, c, i + 1)
    }
}

pub proof fn lemma_find_from_some(s: Seq<char>, c: char, j: int, i: int)
    requires
        find_from(s, c, j) == Some(i),
    ensures
        j <= i < s.len(),
        s[i] == c,
        forall|k: int| j <= k < i ==> s[k] != c,
    decreases s.len() - j,
{
    if 0 <= j < s.len() && s[j] != c {
        lemma_find_from_some(s, c, j + 1, i);
    }
}

/// The namespace and dotted path denoted by a raw key: an explicit
/// `ns:path` prefix overrides; otherwise the first scope (or the empty
/// namespace when no scope is active) is used and the whole key is the path.
pub open spec fn spec_split_key(value: Seq<char>, scopes: Seq<Seq<char>>) -> (Seq<char>, Seq<char>) {
    match find_from(value, ':', 0) {
        Some(i) => (value.take(i), value.skip(i + 1)),
        None => ((if scopes.len() > 0 { scopes[0] } else { Seq::empty() }), value),
    }
}

/// First position of `c` in `s`, if any.
pub fn find_char(s: &str, c: char) -> (r: Option<usize>)
    ensures
        r matches Some(i) ==> find_from(s@, c, 0) == Some(i as int),
        r is None ==> find_from(s@, c, 0) is None,
{
    let n = s.unicode_len();
    let mut i: usize = 0;
    while i < n
        invariant
            i <= n,
            n == s@.len(),
            find_from(s@, c, 0) == find_from(s@, c, i as int),
        decreases n - i,
    {
        if s.get_char(i) == c {
            return Some(i);
        }
        i = i + 1;
    }
    None
}

/// First position of `c` in `s` at or after `start`, if any.
pub(crate) fn find_char_from(s: &str, c: char, start: usize) -> (r: Option<usize>)
    requires
        start <= s@.len(),
    ensures
        r matches Some(i) ==> find_from(s@, c, start as int) == Some(i as int),
        r is None ==> find_from(s@, c, start as int) is None,
{
    let n = s.unicode_len();
    let mut i: usize = start;
    while i < n
        invariant
            i <= n,
            n == s@.len(),
            find_from(s@, c, start as int) == find_from(s@, c, i as int),
        decreases n - i,
    {
        if s.get_char(i) == c {
            return Some(i);
        }
        i = i + 1;
    }
    None
}

/// Splits a raw key into the namespace file name and the dotted path,
/// defaulting the namespace to the first active scope.
pub fn json_path_from_key(value: String, scopes: &Vec<String>) -> (r: (String, String))
    ensures
        (r.0@, r.1@) == spec_split_key(value@, scopes.deep_view()),
{
    match find_char(value.as_str(), ':') {
        Some(i) => {
            proof {
                lemma_find_from_some(value@, ':', 0, i as int);
            }
            let s = value.as_str();
            let n = s.unicode_len();
            let ns = s.substring_char(0, i).to_owned();
            let path = s.substring_char(i + 1, n).to_owned();
            (ns, path)
        }
        None => {
            if scopes.len() > 0 {
                (scopes[0].clone(), value)
            } else {
                (String::new(), value)
            }
        }
    }
}

} // verus!
