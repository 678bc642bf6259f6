//! The name registry: short names as one log channel gives them, each with
//! the full name (a clan tag may precede the short name) that another
//! channel uses for the same player, once that is known.

use vstd::prelude::*;
use vstd::string::*;
use crate::error::FoldError;
use crate::text::same_text;

verus! {

/// The registry as it is stored: pairs of a short name and, once resolved,
/// the full name.
pub type Registry = Vec<(String, Option<String>)>;

/// The registry as a sequence of pairs of texts.
pub type RegistryView = Seq<(Seq<char>, Option<Seq<char>>)>;

/// `short` is the tail of `full`, counted in characters.
pub open spec fn is_tail(short: Seq<char>, full: Seq<char>) -> bool {
    short.len() <= full.len() && full.subrange(full.len() - short.len(), full.len() as int) == short
}

/// Some pair with the short name `name` is resolved.
pub open spec fn is_resolved(name: Seq<char>, names: RegistryView) -> bool {
    exists|i: int| 0 <= i < names.len() && (#[trigger] names[i]).0 == name && names[i].1 is Some
}

/// The registry after `name` was seen: unchanged where a resolved pair has
/// that short name, else with an unresolved pair for it at the end.
pub open spec fn observed(name: Seq<char>, names: RegistryView) -> RegistryView {
    if is_resolved(name, names) {
        names
    } else {
        names.push((name, None))
    }
}

/// Pair `i` is the last one that is resolved to `full`.
pub open spec fn last_resolved_to(full: Seq<char>, names: RegistryView, i: int) -> bool {
    &&& 0 <= i < names.len()
    &&& names[i].1 == Some(full)
    &&& forall|j: int| i < j < names.len() ==> (#[trigger] names[j]).1 != Some(full)
}

/// Pair `i` is the first one whose short name is the tail of `full`.
pub open spec fn first_tail_of(full: Seq<char>, names: RegistryView, i: int) -> bool {
    &&& 0 <= i < names.len()
    &&& is_tail(names[i].0, full)
    &&& forall|j: int| 0 <= j < i ==> !is_tail((#[trigger] names[j]).0, full)
}

/// Some pair is resolved to `full`.
pub open spec fn knows_full(full: Seq<char>, names: RegistryView) -> bool {
    exists|i: int| 0 <= i < names.len() && (#[trigger] names[i]).1 == Some(full)
}

/// The short name of some pair is the tail of `full`.
pub open spec fn has_tail(full: Seq<char>, names: RegistryView) -> bool {
    exists|i: int| 0 <= i < names.len() && is_tail((#[trigger] names[i]).0, full)
}

/// What resolving `full` gives: the canonical short name and the registry
/// afterwards. A pair already resolved to `full` answers, the last of them,
/// and the registry stays. Else the first pair whose short name is the tail
/// of `full` becomes resolved to it and answers. Else the name is unknown.
pub open spec fn resolution(full: Seq<char>, names: RegistryView) -> Result<
    (Seq<char>, RegistryView),
    FoldError,
> {
    if knows_full(full, names) {
        let i = choose|i: int| last_resolved_to(full, names, i);
        Ok((names[i].0, names))
    } else if has_tail(full, names) {
        let i = choose|i: int| first_tail_of(full, names, i);
        Ok((names[i].0, names.update(i, (names[i].0, Some(full)))))
    } else {
        Err(FoldError::UnknownPlayer)
    }
}

/// A copy of the registry.
pub fn copy_registry(names: &Registry) -> (r: Registry)
    ensures
        r.deep_view() == names.deep_view(),
{
    let mut out: Registry = Vec::new();
    let mut i: usize = 0;
    while i < names.len()
        invariant
            i <= names@.len(),
            out@.len() == i,
            forall|j: int| 0 <= j < i ==> (#[trigger] out@[j]).deep_view() == names@[j].deep_view(),
        decreases names@.len() - i,
    {
        let full = match &names[i].1 {
            Some(t) => Some(t.clone()),
            None => None,
        };
        out.push((names[i].0.clone(), full));
        i = i + 1;
    }
    out
}

/// Records that the short name `name` was seen. Where a pair with that short
/// name is already resolved, the registry stays as it is; otherwise an
/// unresolved pair is added at the end, also where one is there already.
pub fn seen_player_name(name: &String, names: &Registry) -> (r: Registry)
    ensures
        r.deep_view() == observed(name@, names.deep_view()),
{
    let mut found = false;
    let mut i: usize = 0;
    while i < names.len()
        invariant
            i <= names@.len(),
            found == exists|j: int|
                0 <= j < i && (#[trigger] names.deep_view()[j]).0 == name@ && names.deep_view()[j].1 is Some,
        decreases names@.len() - i,
    {
        if same_text(names[i].0.as_str(), name.as_str()) && names[i].1.is_some() {
            assert(names.deep_view()[i as int].0 == name@ && names.deep_view()[i as int].1 is Some);
            found = true;
        }
        i = i + 1;
    }
    let mut out = copy_registry(names);
    if !found {
        out.push((name.clone(), None));
    }
    out
}

/// Whether `short` is the tail of `full`, counted in characters.
pub fn ends_with_name(full: &str, short: &str) -> (b: bool)
    ensures
        b == is_tail(short@, full@),
{
    let full_len = full.unicode_len();
    let short_len = short.unicode_len();
    if short_len <= full_len {
        let tail = full.substring_char(full_len - short_len, full_len);
        same_text(tail, short)
    } else {
        false
    }
}

/// Resolves a full name to the canonical short name, and gives the registry
/// as it is afterwards.
pub fn lookup_player_name(name: &String, names: &Registry) -> (r: Result<(String, Registry), FoldError>)
    ensures
        match r {
            Ok((short, after)) => resolution(name@, names.deep_view()) == Ok::<
                (Seq<char>, RegistryView),
                FoldError,
            >((short@, after.deep_view())),
            Err(e) => resolution(name@, names.deep_view()) == Err::<(Seq<char>, RegistryView), FoldError>(e),
        },
{
    let ghost view = names.deep_view();
    let n = names.len();
    // A pair that is resolved to this name already: the last one answers.
    let mut i: usize = n;
    while i > 0
        invariant
            i <= n,
            n == names@.len(),
            view == names.deep_view(),
            forall|j: int| i <= j < n ==> (#[trigger] view[j]).1 != Some(name@),
        decreases i,
    {
        i = i - 1;
        let hit = match &names[i].1 {
            Some(full) => same_text(full.as_str(), name.as_str()),
            None => false,
        };
        if hit {
            proof {
                assert(last_resolved_to(name@, view, i as int));
                let c = choose|c: int| last_resolved_to(name@, view, c);
                assert(c == i);
            }
            return Ok((names[i].0.clone(), copy_registry(names)));
        }
    }
    // Else the first pair whose short name ends the full name.
    let mut k: usize = 0;
    while k < n
        invariant
            k <= n,
            n == names@.len(),
            view == names.deep_view(),
            !knows_full(name@, view),
            forall|j: int| 0 <= j < k ==> !is_tail((#[trigger] view[j]).0, name@),
        decreases n - k,
    {
        if ends_with_name(name.as_str(), names[k].0.as_str()) {
            proof {
                assert(first_tail_of(name@, view, k as int));
                let c = choose|c: int| first_tail_of(name@, view, c);
                assert(c == k);
            }
            let mut after = copy_registry(names);
            after.set(k, (names[k].0.clone(), Some(name.clone())));
            assert(after.deep_view() =~= view.update(k as int, (view[k as int].0, Some(name@))));
            return Ok((names[k].0.clone(), after));
        }
        k = k + 1;
    }
    Err(FoldError::UnknownPlayer)
}

/// Among the pairs whose short name is the tail of `full`, one is the first.
pub proof fn lemma_first_tail_exists(full: Seq<char>, names: RegistryView, n: int)
    requires
        0 <= n < names.len(),
        is_tail(names[n].0, full),
    ensures
        exists|i: int| first_tail_of(full, names, i),
    decreases n,
{
    if exists|j: int| 0 <= j < n && is_tail((#[trigger] names[j]).0, full) {
        let j = choose|j: int| 0 <= j < n && is_tail((#[trigger] names[j]).0, full);
        lemma_first_tail_exists(full, names, j);
    } else {
        assert(first_tail_of(full, names, n));
    }
}

/// Resolving a name twice gives what resolving it once gives: the same short
/// name, and a registry that the second call leaves as the first left it.
pub proof fn lemma_resolution_idempotent(full: Seq<char>, names: RegistryView)
    requires
        resolution(full, names) is Ok,
    ensures
        resolution(full, resolution(full, names)->Ok_0.1) == resolution(full, names),
{
    if !knows_full(full, names) {
        // The first call resolves pair `i`; for the second call it is the
        // only pair resolved to `full`.
        let w = choose|w: int| 0 <= w < names.len() && is_tail((#[trigger] names[w]).0, full);
        lemma_first_tail_exists(full, names, w);
        let i = choose|i: int| first_tail_of(full, names, i);
        let after = names.update(i, (names[i].0, Some(full)));
        assert(last_resolved_to(full, after, i));
    }
}

} // verus!
