//! A set of strings, kept in the order in which the members first came.

use vstd::prelude::*;
use vstd::string::*;
use crate::strmap::{Snapshot, StrMap};

verus! {

impl Snapshot for () {
    fn snapshot(&self) -> (r: Self) {
        ()
    }
}

/// A finite set of strings. No member is held twice.
#[derive(Debug)]
pub struct StrSet {
    members: StrMap<()>,
}

impl View for StrSet {
    type V = Set<Seq<char>>;

    closed spec fn view(&self) -> Set<Seq<char>> {
        self.members@.dom()
    }
}

impl StrSet {
    /// The number of members.
    pub closed spec fn spec_len(&self) -> nat {
        self.members.spec_len()
    }

    /// The member at position `i`.
    pub closed spec fn spec_item(&self, i: int) -> Seq<char> {
        self.members.spec_key(i)
    }

    /// The positions list exactly the members, each once.
    pub open spec fn enumerated(&self) -> bool {
        &&& forall|i: int| 0 <= i < self.spec_len() ==> self@.contains(#[trigger] self.spec_item(i))
        &&& forall|i: int, j: int|
            0 <= i < j < self.spec_len() ==> self.spec_item(i) != self.spec_item(j)
        &&& forall|k: Seq<char>|
            self@.contains(k) ==> exists|i: int| 0 <= i < self.spec_len() && self.spec_item(i) == k
    }

    /// The empty set.
    pub fn new() -> (r: Self)
        ensures
            r@ == Set::<Seq<char>>::empty(),
            r.spec_len() == 0,
    {
        StrSet { members: StrMap::new() }
    }

    /// The number of members.
    pub fn len(&self) -> (n: usize)
        ensures
            n == self.spec_len(),
            self@.finite(),
            self@.len() == n,
            self.enumerated(),
    {
        let n = self.members.len();
        proof {
            assert forall|k: Seq<char>| self@.contains(k) implies exists|i: int|
                0 <= i < self.spec_len() && self.spec_item(i) == k by {
                let i = choose|i: int| 0 <= i < self.members.spec_len() && self.members.spec_key(i) == k;
                assert(self.spec_item(i) == k);
            }
        }
        n
    }

    /// The member at position `i`.
    pub fn item_at(&self, i: usize) -> (k: &String)
        requires
            i < self.spec_len(),
        ensures
            k@ == self.spec_item(i as int),
    {
        self.members.key_at(i)
    }

    /// Whether `item` is a member.
    pub fn contains(&self, item: &str) -> (b: bool)
        ensures
            b == self@.contains(item@),
    {
        self.members.contains_key(item)
    }

    /// The set with `item` added.
    pub fn with(self, item: String) -> (r: Self)
        ensures
            r@ == self@.insert(item@),
    {
        StrSet { members: self.members.with(item, ()) }
    }
}

impl Snapshot for StrSet {
    fn snapshot(&self) -> (r: Self) {
        StrSet { members: self.members.snapshot() }
    }
}

} // verus!
