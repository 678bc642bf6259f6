//! A map from strings to values, kept as a list of entries in the order in
//! which the keys first came.

use vstd::prelude::*;
use vstd::string::*;
use crate::text::same_text;

verus! {

/// A value that can be copied in depth: the copy has the same view.
pub trait Snapshot: View + Sized {
    /// A copy of the value, equal to it in every part that the view shows.
    fn snapshot(&self) -> (r: Self)
        ensures
            r@ == self@,
    ;
}

impl Snapshot for u32 {
    fn snapshot(&self) -> (r: Self) {
        *self
    }
}

/// A finite map keyed by strings. No key occurs twice among the entries.
#[derive(Debug)]
pub struct StrMap<V: View> {
    entries: Vec<(String, V)>,
}

/// Some entry of the list has the key `k`.
spec fn has_key<V: View>(s: Seq<(String, V)>, k: Seq<char>) -> bool {
    exists|i: int| 0 <= i < s.len() && (#[trigger] s[i]).0@ == k
}

/// The place of an entry with the key `k`.
spec fn key_index<V: View>(s: Seq<(String, V)>, k: Seq<char>) -> int {
    choose|i: int| 0 <= i < s.len() && (#[trigger] s[i]).0@ == k
}

/// No two entries of the list have the same key.
spec fn distinct<V: View>(s: Seq<(String, V)>) -> bool {
    forall|i: int, j: int|
        0 <= i < j < s.len() ==> (#[trigger] s[i]).0@ != (#[trigger] s[j]).0@
}

/// The map that the list stands for.
spec fn as_map<V: View>(s: Seq<(String, V)>) -> Map<Seq<char>, V::V> {
    Map::new(|k: Seq<char>| has_key(s, k), |k: Seq<char>| s[key_index(s, k)].1@)
}

/// In a list without a repeated key, each entry is what the map holds
/// under its key.
proof fn lemma_key_index<V: View>(s: Seq<(String, V)>, i: int)
    requires
        distinct(s),
        0 <= i < s.len(),
    ensures
        has_key(s, s[i].0@),
        key_index(s, s[i].0@) == i,
        as_map(s).contains_key(s[i].0@),
        as_map(s)[s[i].0@] == s[i].1@,
{
    let j = key_index(s, s[i].0@);
    assert(j == i);
}

/// Two lists with the same keys and the same values, place by place, stand
/// for the same map.
proof fn lemma_same_entries<V: View>(s: Seq<(String, V)>, t: Seq<(String, V)>)
    requires
        distinct(s),
        s.len() == t.len(),
        forall|i: int| 0 <= i < s.len() ==> (#[trigger] s[i]).0@ == t[i].0@ && s[i].1@ == t[i].1@,
    ensures
        distinct(t),
        as_map(s) == as_map(t),
{
    assert forall|i: int, j: int| 0 <= i < j < t.len() implies (#[trigger] t[i]).0@ != (#[trigger] t[j]).0@ by {
        assert(s[i].0@ != s[j].0@);
    }
    assert forall|k: Seq<char>| has_key(s, k) == has_key(t, k) by {
        if has_key(t, k) {
            let i = key_index(t, k);
            assert(s[i].0@ == k);
        }
    }
}

/// Replacing the value of an entry, or appending an entry under a new key,
/// is an insertion into the map.
proof fn lemma_put<V: View>(s: Seq<(String, V)>, t: Seq<(String, V)>, e: (String, V))
    requires
        distinct(s),
        (exists|i: int| 0 <= i < s.len() && (#[trigger] s[i]).0@ == e.0@ && t == s.update(i, e)) || (
        !has_key(s, e.0@) && t == s.push(e)),
    ensures
        distinct(t),
        as_map(t) == as_map(s).insert(e.0@, e.1@),
{
    let k0 = e.0@;
    if has_key(s, k0) {
        let i0 = choose|i: int| 0 <= i < s.len() && (#[trigger] s[i]).0@ == e.0@ && t == s.update(i, e);
        assert(t[i0] == e);
        assert forall|k: Seq<char>| has_key(t, k) == (k == k0 || has_key(s, k)) by {
            if has_key(s, k) {
                let i = key_index(s, k);
                assert(t[i].0@ == k);
            }
        }
    } else {
        let n = s.len() as int;
        lemma_key_index(t, n);
        assert forall|k: Seq<char>| has_key(t, k) == (k == k0 || has_key(s, k)) by {
            if has_key(s, k) {
                let i = key_index(s, k);
                assert(t[i].0@ == k);
            }
        }
    }
}

/// A list without a repeated key stands for a map with as many keys as the
/// list has entries.
proof fn lemma_size<V: View>(s: Seq<(String, V)>)
    requires
        distinct(s),
    ensures
        as_map(s).dom().finite(),
        as_map(s).dom().len() == s.len(),
    decreases s.len(),
{
    if s.len() == 0 {
        assert(as_map(s).dom() =~= Set::<Seq<char>>::empty());
    } else {
        let front = s.drop_last();
        lemma_size(front);
        assert(s =~= front.push(s.last()));
        lemma_put(front, s, s.last());
    }
}

impl<V: View> View for StrMap<V> {
    type V = Map<Seq<char>, V::V>;

    closed spec fn view(&self) -> Map<Seq<char>, V::V> {
        as_map(self.entries@)
    }
}

impl<V: View> StrMap<V> {
    #[verifier::type_invariant]
    closed spec fn keys_distinct(&self) -> bool {
        distinct(self.entries@)
    }

    /// The number of entries.
    pub closed spec fn spec_len(&self) -> nat {
        self.entries@.len()
    }

    /// The key of the entry at position `i`.
    pub closed spec fn spec_key(&self, i: int) -> Seq<char> {
        self.entries@[i].0@
    }

    /// The value of the entry at position `i`.
    pub closed spec fn spec_value(&self, i: int) -> V::V {
        self.entries@[i].1@
    }

    /// The entries list exactly what the map holds, each key once.
    pub open spec fn enumerated(&self) -> bool {
        &&& forall|i: int|
            0 <= i < self.spec_len() ==> self@.contains_key(#[trigger] self.spec_key(i)) && self@[self.spec_key(
                i,
            )] == self.spec_value(i)
        &&& forall|i: int, j: int|
            0 <= i < j < self.spec_len() ==> self.spec_key(i) != self.spec_key(j)
        &&& forall|k: Seq<char>|
            self@.contains_key(k) ==> exists|i: int| 0 <= i < self.spec_len() && self.spec_key(i) == k
    }

    /// The empty map.
    pub fn new() -> (r: Self)
        ensures
            r@ == Map::<Seq<char>, V::V>::empty(),
            r.spec_len() == 0,
    {
        StrMap { entries: Vec::new() }
    }

    /// The number of entries, which is the number of keys.
    pub fn len(&self) -> (n: usize)
        ensures
            n == self.spec_len(),
            self@.dom().finite(),
            self@.dom().len() == n,
            self.enumerated(),
    {
        proof {
            use_type_invariant(self);
            let s = self.entries@;
            lemma_size(s);
            assert forall|k: Seq<char>| self@.contains_key(k) implies exists|i: int|
                0 <= i < self.spec_len() && self.spec_key(i) == k by {
                assert(self.spec_key(key_index(s, k)) == k);
            }
        }
        self.entries.len()
    }

    /// The key at position `i`.
    pub fn key_at(&self, i: usize) -> (k: &String)
        requires
            i < self.spec_len(),
        ensures
            k@ == self.spec_key(i as int),
    {
        &self.entries[i].0
    }

    /// The value at position `i`.
    pub fn value_at(&self, i: usize) -> (v: &V)
        requires
            i < self.spec_len(),
        ensures
            v@ == self.spec_value(i as int),
    {
        &self.entries[i].1
    }

    fn position(&self, key: &str) -> (r: Option<usize>)
        ensures
            match r {
                Some(i) => i < self.entries@.len() && self.entries@[i as int].0@ == key@,
                None => forall|j: int| 0 <= j < self.entries@.len() ==> self.entries@[j].0@ != key@,
            },
    {
        let mut i: usize = 0;
        while i < self.entries.len()
            invariant
                i <= self.entries@.len(),
                forall|j: int| 0 <= j < i ==> self.entries@[j].0@ != key@,
            decreases self.entries@.len() - i,
        {
            if same_text(self.entries[i].0.as_str(), key) {
                return Some(i);
            }
            i = i + 1;
        }
        None
    }

    /// The value under `key`, if the map holds the key.
    pub fn get(&self, key: &str) -> (r: Option<&V>)
        ensures
            match r {
                Some(v) => self@.contains_key(key@) && v@ == self@[key@],
                None => !self@.contains_key(key@),
            },
    {
        proof {
            use_type_invariant(self);
        }
        match self.position(key) {
            Some(i) => {
                Some(&self.entries[i].1)
            },
            None => {
                None
            },
        }
    }

    /// Whether the map holds `key`.
    pub fn contains_key(&self, key: &str) -> (b: bool)
        ensures
            b == self@.contains_key(key@),
    {
        proof {
            use_type_invariant(self);
        }
        match self.position(key) {
            Some(i) => {
                true
            },
            None => {
                false
            },
        }
    }

    /// The map with `value` under `key`, in place of what was there.
    pub fn with(self, key: String, value: V) -> (r: Self)
        ensures
            r@ == self@.insert(key@, value@),
    {
        proof {
            use_type_invariant(&self);
        }
        let found = self.position(key.as_str());
        let ghost before = self.entries@;
        let ghost entry = (key, value);
        let mut entries = self.entries;
        match found {
            Some(i) => {
                entries.set(i, (key, value));
            },
            None => {
                entries.push((key, value));
            },
        }
        proof {
            lemma_put(before, entries@, entry);
        }
        StrMap { entries }
    }
}

impl<V: Snapshot> Snapshot for StrMap<V> {
    fn snapshot(&self) -> (r: Self) {
        proof {
            use_type_invariant(self);
        }
        let mut entries: Vec<(String, V)> = Vec::new();
        let mut i: usize = 0;
        while i < self.entries.len()
            invariant
                i <= self.entries@.len(),
                entries@.len() == i,
                forall|j: int|
                    0 <= j < i ==> entries@[j].0@ == self.entries@[j].0@ && entries@[j].1@
                        == self.entries@[j].1@,
            decreases self.entries@.len() - i,
        {
            let k = self.entries[i].0.clone();
            let v = self.entries[i].1.snapshot();
            entries.push((k, v));
            i = i + 1;
        }
        proof {
            lemma_same_entries(self.entries@, entries@);
        }
        StrMap { entries }
    }
}

} // verus!
