//! A map from addresses to values that is walked in alphabetical order of the addresses.
use crate::text::{
    comes_before, lemma_precedes_irreflexive, lemma_precedes_total, lemma_precedes_transitive,
    precedes,
};
use vstd::prelude::*;

verus! {

/// Whether the entries stand in strict alphabetical order, so that no address occurs twice.
pub open spec fn ascending<W>(s: Seq<(Seq<char>, W)>) -> bool {
    forall|i: int, j: int| 0 <= i < j < s.len() ==> precedes(#[trigger] s[i].0, #[trigger] s[j].0)
}

/// How many entries at the front come before an address.
pub open spec fn rank<W>(s: Seq<(Seq<char>, W)>, key: Seq<char>) -> nat
    decreases s.len(),
{
    if s.len() > 0 && precedes(s[0].0, key) {
        1 + rank(s.skip(1), key)
    } else {
        0
    }
}

/// Whether an address has an entry.
pub open spec fn has_entry<W>(s: Seq<(Seq<char>, W)>, key: Seq<char>) -> bool {
    rank(s, key) < s.len() && s[rank(s, key) as int].0 == key
}

/// The value of an address.
pub open spec fn lookup<W>(s: Seq<(Seq<char>, W)>, key: Seq<char>) -> Option<W> {
    if has_entry(s, key) {
        Some(s[rank(s, key) as int].1)
    } else {
        None
    }
}

/// The entries after an address got a value.
pub open spec fn put<W>(s: Seq<(Seq<char>, W)>, key: Seq<char>, value: W) -> Seq<
    (Seq<char>, W),
> {
    if has_entry(s, key) {
        s.update(rank(s, key) as int, (key, value))
    } else {
        s.insert(rank(s, key) as int, (key, value))
    }
}

/// The rank of an address parts the entries before it from the others.
pub proof fn lemma_rank<W>(s: Seq<(Seq<char>, W)>, key: Seq<char>)
    requires
        ascending(s),
    ensures
        rank(s, key) <= s.len(),
        forall|i: int| 0 <= i < rank(s, key) ==> precedes(#[trigger] s[i].0, key),
        forall|i: int| rank(s, key) <= i < s.len() ==> !precedes(#[trigger] s[i].0, key),
    decreases s.len(),
{
    if s.len() > 0 {
        let rest = s.skip(1);
        assert forall|i: int, j: int| 0 <= i < j < rest.len() implies precedes(
            #[trigger] rest[i].0,
            #[trigger] rest[j].0,
        ) by {
            assert(rest[i] == s[i + 1] && rest[j] == s[j + 1]);
        }
        if precedes(s[0].0, key) {
            lemma_rank(rest, key);
            assert forall|i: int| 0 <= i < rank(s, key) implies precedes(
                #[trigger] s[i].0,
                key,
            ) by {
                if i > 0 {
                    assert(rest[i - 1] == s[i]);
                }
            }
            assert forall|i: int| rank(s, key) <= i < s.len() implies !precedes(
                #[trigger] s[i].0,
                key,
            ) by {
                assert(rest[i - 1] == s[i]);
            }
        } else {
            assert forall|i: int| 0 <= i < s.len() implies !precedes(#[trigger] s[i].0, key) by {
                if i > 0 && precedes(s[i].0, key) {
                    lemma_precedes_transitive(s[0].0, s[i].0, key);
                }
            }
        }
    }
}

/// An entry is found under its address.
pub proof fn lemma_lookup_entry<W>(s: Seq<(Seq<char>, W)>, i: int)
    requires
        ascending(s),
        0 <= i < s.len(),
    ensures
        has_entry(s, s[i].0),
        rank(s, s[i].0) == i,
        lookup(s, s[i].0) == Some(s[i].1),
{
    let key = s[i].0;
    lemma_rank(s, key);
    lemma_precedes_irreflexive(key);
    let p = rank(s, key) as int;
    if p < i {
        assert(precedes(s[p].0, s[i].0));
    }
}

/// An address that no entry holds is not found.
pub proof fn lemma_lookup_absent<W>(s: Seq<(Seq<char>, W)>, key: Seq<char>)
    requires
        forall|i: int| 0 <= i < s.len() ==> #[trigger] s[i].0 != key,
    ensures
        lookup(s, key) is None,
{
    if has_entry(s, key) {
        assert(s[rank(s, key) as int].0 == key);
    }
}

/// A new value keeps the order of the entries.
pub proof fn lemma_put_ascending<W>(s: Seq<(Seq<char>, W)>, key: Seq<char>, value: W)
    requires
        ascending(s),
    ensures
        ascending(put(s, key, value)),
{
    lemma_rank(s, key);
    let p = rank(s, key) as int;
    let t = put(s, key, value);
    if has_entry(s, key) {
        assert forall|i: int, j: int| 0 <= i < j < t.len() implies precedes(
            #[trigger] t[i].0,
            #[trigger] t[j].0,
        ) by {
            assert(t[i].0 == s[i].0 && t[j].0 == s[j].0);
        }
    } else {
        assert forall|i: int, j: int| 0 <= i < j < t.len() implies precedes(
            #[trigger] t[i].0,
            #[trigger] t[j].0,
        ) by {
            if i == p {
                assert(t[j] == s[j - 1]);
                assert(!precedes(s[j - 1].0, key));
                lemma_precedes_total(key, s[j - 1].0);
                if s[j - 1].0 == key {
                    lemma_lookup_entry(s, j - 1);
                }
            } else if j == p {
                assert(t[i] == s[i]);
            } else if i < p {
                assert(t[i] == s[i]);
                if j < p {
                    assert(t[j] == s[j]);
                } else {
                    assert(t[j] == s[j - 1]);
                }
            } else {
                assert(t[i] == s[i - 1] && t[j] == s[j - 1]);
            }
        }
    }
}

/// An address that got a value has it afterwards, and no other address is touched.
pub proof fn law_put_then_lookup<W>(
    s: Seq<(Seq<char>, W)>,
    key: Seq<char>,
    value: W,
    other: Seq<char>,
)
    requires
        ascending(s),
    ensures
        lookup(put(s, key, value), other) == (if other == key {
            Some(value)
        } else {
            lookup(s, other)
        }),
{
    lemma_rank(s, key);
    lemma_put_ascending(s, key, value);
    let p = rank(s, key) as int;
    let t = put(s, key, value);
    assert(t[p] == (key, value));
    lemma_lookup_entry(t, p);
    if other != key {
        if has_entry(s, other) {
            let q = rank(s, other) as int;
            if has_entry(s, key) || q < p {
                assert(t[q] == s[q]);
                lemma_lookup_entry(t, q);
            } else {
                assert(t[q + 1] == s[q]);
                lemma_lookup_entry(t, q + 1);
            }
        } else {
            assert forall|i: int| 0 <= i < t.len() implies #[trigger] t[i].0 != other by {
                if t[i].0 == other {
                    if has_entry(s, key) || i < p {
                        assert(t[i].0 == s[i].0);
                        lemma_lookup_entry(s, i);
                    } else {
                        assert(t[i] == s[i - 1]);
                        lemma_lookup_entry(s, i - 1);
                    }
                }
            }
            lemma_lookup_absent(t, other);
        }
    }
}

/// A map from addresses to values, kept in alphabetical order of the addresses.
#[derive(Clone, Debug)]
pub struct AddressMap<V> {
    keys: Vec<String>,
    values: Vec<V>,
}

impl<V: View> View for AddressMap<V> {
    type V = Seq<(Seq<char>, V::V)>;

    closed spec fn view(&self) -> Seq<(Seq<char>, V::V)> {
        Seq::new(self.keys@.len(), |i: int| (self.keys@[i]@, self.values@[i]@))
    }
}

impl<V: View> AddressMap<V> {
    /// Whether each address has its own value.
    pub closed spec fn paired(&self) -> bool {
        self.keys@.len() == self.values@.len()
    }

    /// The invariant of the map.
    pub open spec fn wf(&self) -> bool {
        self.paired() && ascending(self@)
    }

    /// A map without entries.
    pub fn new() -> (r: Self)
        ensures
            r.wf(),
            r@ == Seq::<(Seq<char>, V::V)>::empty(),
    {
        let r = AddressMap { keys: Vec::new(), values: Vec::new() };
        assert(r@ =~= Seq::<(Seq<char>, V::V)>::empty());
        r
    }

    /// The number of entries.
    pub fn len(&self) -> (r: usize)
        ensures
            r == self@.len(),
    {
        self.keys.len()
    }

    /// The address of an entry.
    pub fn key(&self, i: usize) -> (r: &String)
        requires
            i < self@.len(),
        ensures
            r@ == self@[i as int].0,
    {
        &self.keys[i]
    }

    /// The value of an entry.
    pub fn value(&self, i: usize) -> (r: &V)
        requires
            self.wf(),
            i < self@.len(),
        ensures
            r@ == self@[i as int].1,
    {
        &self.values[i]
    }

    /// Where the entry of an address stands or would stand, and whether it is there.
    fn find(&self, key: &str) -> (r: (usize, bool))
        requires
            self.wf(),
        ensures
            r.0 == rank(self@, key@),
            r.1 == has_entry(self@, key@),
            r.0 <= self@.len(),
    {
        proof {
            lemma_rank(self@, key@);
        }
        let count: usize = self.keys.len();
        let mut i: usize = 0;
        while i < count && comes_before(self.keys[i].as_str(), key)
            invariant
                self.wf(),
                count == self@.len(),
                count == self.keys@.len(),
                i <= count,
                i <= rank(self@, key@) <= count,
                forall|j: int| 0 <= j < rank(self@, key@) ==> precedes(
                    #[trigger] self@[j].0,
                    key@,
                ),
                forall|j: int| rank(self@, key@) <= j < count ==> !precedes(
                    #[trigger] self@[j].0,
                    key@,
                ),
            decreases count - i,
        {
            assert(self@[i as int].0 == self.keys@[i as int]@);
            i = i + 1;
        }
        assert(i < count ==> self@[i as int].0 == self.keys@[i as int]@);
        if i < count && !comes_before(key, self.keys[i].as_str()) {
            proof {
                lemma_precedes_total(self@[i as int].0, key@);
            }
            (i, true)
        } else {
            proof {
                lemma_precedes_irreflexive(key@);
            }
            (i, false)
        }
    }

    /// The value of an address.
    pub fn get(&self, key: &str) -> (r: Option<&V>)
        requires
            self.wf(),
        ensures
            r is Some <==> lookup(self@, key@) is Some,
            r matches Some(v) ==> lookup(self@, key@) == Some(v@),
            r is Some <==> exists|i: int| 0 <= i < self@.len() && #[trigger] self@[i].0 == key@,
            forall|i: int|
                0 <= i < self@.len() && #[trigger] self@[i].0 == key@ ==> (r matches Some(v) && v@
                    == self@[i].1),
    {
        proof {
            if has_entry(self@, key@) {
                assert(self@[rank(self@, key@) as int].0 == key@);
            }
            assert forall|i: int| 0 <= i < self@.len() && #[trigger] self@[i].0 == key@ implies lookup(
                self@,
                key@,
            ) == Some(self@[i].1) by {
                lemma_lookup_entry(self@, i);
            }
        }
        let (i, found) = self.find(key);
        if found {
            Some(&self.values[i])
        } else {
            None
        }
    }

    /// Gives an address a value; an earlier one is replaced.
    pub fn insert(&mut self, key: String, value: V)
        requires
            old(self).wf(),
        ensures
            final(self).wf(),
            final(self)@ == put(old(self)@, key@, value@),
            lookup(final(self)@, key@) == Some(value@),
            forall|other: Seq<char>|
                other != key@ ==> #[trigger] lookup(final(self)@, other) == lookup(
                    old(self)@,
                    other,
                ),
    {
        proof {
            law_put_then_lookup(self@, key@, value@, key@);
            assert forall|other: Seq<char>| other != key@ implies #[trigger] lookup(
                put(self@, key@, value@),
                other,
            ) == lookup(self@, other) by {
                law_put_then_lookup(self@, key@, value@, other);
            }
        }
        let (i, found) = self.find(key.as_str());
        proof {
            lemma_put_ascending(self@, key@, value@);
        }
        if found {
            self.values.set(i, value);
        } else {
            self.keys.insert(i, key);
            self.values.insert(i, value);
        }
        assert(self@ =~= put(old(self)@, key@, value@));
    }
}

} // verus!
