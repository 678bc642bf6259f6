//! Matching a text against a pattern, and the groups that the match captures.

use vstd::prelude::*;
use vstd::string::*;

verus! {

/// The groups of a match, the whole match first. A group that took no part
/// in the match is `None`.
pub type Groups = Vec<Option<String>>;

/// The groups of a match as texts.
pub type GroupsView = Seq<Option<Seq<char>>>;

/// What the `regex` crate finds when it compiles `pattern` with `Regex::new`
/// and searches `haystack` with `Regex::captures`: the groups of the first
/// match, the whole match at index 0, or `None` where nothing matches or the
/// pattern does not compile.
pub uninterp spec fn captured_groups(pattern: Seq<char>, haystack: Seq<char>) -> Option<Seq<Option<Seq<char>>>>;

/// Calls `regex::Regex::new` and then `regex::Regex::captures`. The contract
/// claims only that the outcome is a function of the two strings. Of a match
/// it hands on the text of each group, in the order of `Captures::iter`.
#[verifier::external_body]
pub(crate) fn captures(pattern: &str, haystack: &str) -> (r: Option<Groups>)
    ensures
        r.deep_view() == captured_groups(pattern@, haystack@),
{
    match regex::Regex::new(pattern) {
        Ok(re) => re.captures(haystack).map(
            |c| c.iter().map(|m| m.map(|m| m.as_str().to_string())).collect(),
        ),
        Err(_) => None,
    }
}

/// The match has `n` groups besides the whole match, and each of them took
/// part in it.
pub open spec fn shaped(c: GroupsView, n: int) -> bool {
    c.len() == n + 1 && forall|i: int| 1 <= i <= n ==> (#[trigger] c[i]) is Some
}

/// Whether the match has `n` groups besides the whole match, each of which
/// took part in it.
pub fn is_shaped(c: &Groups, n: usize) -> (b: bool)
    requires
        n < usize::MAX,
    ensures
        b == shaped(c.deep_view(), n as int),
{
    if c.len() != n + 1 {
        return false;
    }
    let mut i: usize = 1;
    while i <= n
        invariant
            1 <= i <= n + 1,
            n < usize::MAX,
            c@.len() == n + 1,
            forall|j: int| 1 <= j < i ==> (#[trigger] c.deep_view()[j]) is Some,
        decreases n + 1 - i,
    {
        if c[i].is_none() {
            assert(c.deep_view()[i as int] is None);
            return false;
        }
        i = i + 1;
    }
    true
}

/// The text of group `i`.
pub fn group(c: &Groups, i: usize) -> (s: &str)
    requires
        i < c@.len(),
        c.deep_view()[i as int] is Some,
    ensures
        s@ == c.deep_view()[i as int]->0,
{
    match &c[i] {
        Some(t) => t.as_str(),
        None => "",
    }
}

} // verus!
