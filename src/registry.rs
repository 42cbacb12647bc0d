//! An immutable-once-published map from address to builtin, kept in ascending
//! address order.

use vstd::prelude::*;
use crate::address::{Address, AddressOrder, bytes_lt, lemma_bytes_lt_transitive, lemma_bytes_lt_asymmetric};
use crate::builtin::Builtin;
use crate::params::CardinalNumber;

verus! {

/// Whether the addresses of `s` ascend strictly.
pub open spec fn strictly_ascending(s: Seq<(Address, Builtin)>) -> bool {
    forall|i: int, j: int| 0 <= i < j < s.len() ==> bytes_lt(#[trigger] s[i].0@, #[trigger] s[j].0@)
}

/// Whether `s` lists exactly the entries of `m`.
pub open spec fn lists_exactly(s: Seq<(Address, Builtin)>, m: Map<Seq<u8>, Builtin>) -> bool {
    &&& forall|i: int| 0 <= i < s.len() ==> #[trigger] m.contains_key(s[i].0@) && m[s[i].0@] == s[i].1
    &&& forall|k: Seq<u8>| #[trigger] m.contains_key(k) ==> exists|i: int| 0 <= i < s.len() && s[i].0@ == k
}

/// Builtins keyed by address, with unique keys and ascending enumeration order.
pub struct BuiltinRegistry {
    entries: Vec<(Address, Builtin)>,
    contents: Ghost<Map<Seq<u8>, Builtin>>,
}

impl View for BuiltinRegistry {
    type V = Map<Seq<u8>, Builtin>;

    closed spec fn view(&self) -> Map<Seq<u8>, Builtin> {
        self.contents@
    }
}

impl BuiltinRegistry {
    /// The entries in enumeration order.
    pub closed spec fn entry_seq(&self) -> Seq<(Address, Builtin)> {
        self.entries@
    }

    pub closed spec fn wf(&self) -> bool {
        &&& strictly_ascending(self.entries@)
        &&& lists_exactly(self.entries@, self.contents@)
        &&& forall|k: Seq<u8>| #[trigger] self.contents@.contains_key(k) ==> k.len() == 20
    }

    /// An empty registry.
    pub fn new() -> (r: Self)
        ensures
            r.wf(),
            r@ == Map::<Seq<u8>, Builtin>::empty(),
    {
        BuiltinRegistry { entries: Vec::new(), contents: Ghost(Map::empty()) }
    }

    /// Number of registered builtins.
    pub fn len(&self) -> (r: usize)
        requires
            self.wf(),
        ensures
            r == self@.len(),
    {
        proof { self.lemma_len(); }
        self.entries.len()
    }

    proof fn lemma_len(&self)
        requires
            self.wf(),
        ensures
            self.entries@.len() == self@.len(),
            self@.dom().finite(),
    {
        let s = self.entries@;
        let keys = Seq::new(s.len(), |i: int| s[i].0@);
        assert forall|i: int, j: int| 0 <= i < keys.len() && 0 <= j < keys.len() && i != j implies keys[i] != keys[j] by {
            if i < j {
                lemma_bytes_lt_asymmetric(s[i].0@, s[j].0@);
            } else {
                lemma_bytes_lt_asymmetric(s[j].0@, s[i].0@);
            }
        }
        assert(keys.no_duplicates());
        assert(keys.to_set() =~= self@.dom()) by {
            assert forall|k: Seq<u8>| keys.to_set().contains(k) <==> self@.dom().contains(k) by {
                if self@.dom().contains(k) {
                    assert(self@.contains_key(k));
                    let i = choose|i: int| 0 <= i < s.len() && s[i].0@ == k;
                    assert(keys[i] == k);
                }
                if keys.to_set().contains(k) {
                    let i = choose|i: int| 0 <= i < keys.len() && keys[i] == k;
                    assert(self@.contains_key(s[i].0@));
                }
            }
        }
        keys.unique_seq_to_set();
    }

    /// Whether no builtin is registered.
    pub fn is_empty(&self) -> (r: bool)
        requires
            self.wf(),
        ensures
            r == (self@.len() == 0),
    {
        self.len() == 0
    }

    /// Index of the first entry whose address is not below `address`, and
    /// whether that entry's address is `address` itself.
    fn position(&self, address: &Address) -> (r: (usize, bool))
        requires
            self.wf(),
        ensures
            r.0 <= self.entries@.len(),
            forall|j: int| 0 <= j < r.0 ==> bytes_lt(#[trigger] self.entries@[j].0@, address@),
            r.1 ==> r.0 < self.entries@.len() && self.entries@[r.0 as int].0@ == address@,
            !r.1 && r.0 < self.entries@.len() ==> bytes_lt(address@, self.entries@[r.0 as int].0@),
    {
        let mut i: usize = 0;
        while i < self.entries.len()
            invariant
                self.wf(),
                i <= self.entries@.len(),
                forall|j: int| 0 <= j < i ==> bytes_lt(#[trigger] self.entries@[j].0@, address@),
            decreases self.entries@.len() - i,
        {
            match self.entries[i].0.compare(address) {
                AddressOrder::Less => {
                    i = i + 1;
                },
                AddressOrder::Equal => {
                    return (i, true);
                },
                AddressOrder::Greater => {
                    return (i, false);
                },
            }
        }
        (i, false)
    }

    /// The builtin registered at `address`, whatever its activation height.
    pub fn get(&self, address: &Address) -> (r: Option<&Builtin>)
        requires
            self.wf(),
        ensures
            r is Some <==> self@.contains_key(address@),
            r is Some ==> *r->0 == self@[address@],
    {
        let (i, found) = self.position(address);
        if found {
            Some(&self.entries[i].1)
        } else {
            proof {
                let s = self.entries@;
                if self@.contains_key(address@) {
                    let k = choose|k: int| 0 <= k < s.len() && s[k].0@ == address@;
                    if k < i {
                        lemma_bytes_lt_asymmetric(s[k].0@, address@);
                    } else if k == i {
                        lemma_bytes_lt_asymmetric(address@, s[k].0@);
                    } else {
                        lemma_bytes_lt_transitive(address@, s[i as int].0@, s[k].0@);
                        lemma_bytes_lt_asymmetric(address@, s[k].0@);
                    }
                }
            }
            None
        }
    }

    /// The builtin registered at `address`, if there is one and it is
    /// reachable at height `at`.
    pub fn resolve(&self, address: &Address, at: CardinalNumber) -> (r: Option<&Builtin>)
        requires
            self.wf(),
        ensures
            r is Some <==> self@.contains_key(address@) && self@[address@].active_at(at),
            r is Some ==> *r->0 == self@[address@],
    {
        match self.get(address) {
            Some(b) => if b.is_active(at) {
                Some(b)
            } else {
                None
            },
            None => None,
        }
    }

    /// Registers `builtin` at `address`, replacing what was registered there.
    pub fn insert(&mut self, address: Address, builtin: Builtin)
        requires
            old(self).wf(),
        ensures
            final(self).wf(),
            final(self)@ == old(self)@.insert(address@, builtin),
    {
        let (i, found) = self.position(&address);
        let ghost s = self.entries@;
        let ghost m = self.contents@;
        let ghost a = address@;
        if found {
            self.entries.set(i, (address, builtin));
            self.contents = Ghost(m.insert(a, builtin));
            proof {
                let t = self.entries@;
                assert forall|k: int| 0 <= k < s.len() && k != i implies #[trigger] s[k].0@ != a by {
                    if k < i {
                        lemma_bytes_lt_asymmetric(s[k].0@, s[i as int].0@);
                    } else {
                        lemma_bytes_lt_asymmetric(s[i as int].0@, s[k].0@);
                    }
                }
                assert forall|p: int, q: int| 0 <= p < q < t.len() implies bytes_lt(#[trigger] t[p].0@, #[trigger] t[q].0@) by {
                    assert(s[p].0@ == t[p].0@ && s[q].0@ == t[q].0@);
                }
                assert forall|key: Seq<u8>| #[trigger] self.contents@.contains_key(key) implies exists|k: int| 0 <= k < t.len() && t[k].0@ == key by {
                    if key == a {
                        assert(t[i as int].0@ == key);
                    } else {
                        let k = choose|k: int| 0 <= k < s.len() && s[k].0@ == key;
                        assert(t[k].0@ == key);
                    }
                }
                assert forall|k: int| 0 <= k < t.len() implies #[trigger] self.contents@.contains_key(t[k].0@) && self.contents@[t[k].0@] == t[k].1 by {
                    if k != i {
                        assert(s[k] == t[k]);
                    }
                }
            }
        } else {
            self.entries.insert(i, (address, builtin));
            self.contents = Ghost(m.insert(a, builtin));
            proof {
                let t = self.entries@;
                assert(t.len() == s.len() + 1);
                assert forall|k: int| 0 <= k < s.len() implies #[trigger] s[k].0@ != a by {
                    if k < i {
                        lemma_bytes_lt_asymmetric(s[k].0@, a);
                    } else if k == i {
                        lemma_bytes_lt_asymmetric(a, s[k].0@);
                    } else {
                        lemma_bytes_lt_transitive(a, s[i as int].0@, s[k].0@);
                        lemma_bytes_lt_asymmetric(a, s[k].0@);
                    }
                }
                assert forall|p: int, q: int| 0 <= p < q < t.len() implies bytes_lt(#[trigger] t[p].0@, #[trigger] t[q].0@) by {
                    if q < i {
                        assert(t[p] == s[p] && t[q] == s[q]);
                    } else if q == i {
                        assert(t[p] == s[p]);
                    } else if p < i {
                        assert(t[p] == s[p] && t[q] == s[q - 1]);
                    } else if p == i {
                        assert(t[q] == s[q - 1]);
                        if q - 1 > i {
                            lemma_bytes_lt_transitive(a, s[i as int].0@, s[q - 1].0@);
                        }
                    } else {
                        assert(t[p] == s[p - 1] && t[q] == s[q - 1]);
                    }
                }
                assert forall|key: Seq<u8>| #[trigger] self.contents@.contains_key(key) implies exists|k: int| 0 <= k < t.len() && t[k].0@ == key by {
                    if key == a {
                        assert(t[i as int].0@ == key);
                    } else {
                        let k = choose|k: int| 0 <= k < s.len() && s[k].0@ == key;
                        if k < i {
                            assert(t[k].0@ == key);
                        } else {
                            assert(t[k + 1].0@ == key);
                        }
                    }
                }
                assert forall|k: int| 0 <= k < t.len() implies #[trigger] self.contents@.contains_key(t[k].0@) && self.contents@[t[k].0@] == t[k].1 by {
                    if k < i {
                        assert(s[k] == t[k]);
                    } else if k > i {
                        assert(s[k - 1] == t[k]);
                    }
                }
            }
        }
    }

    /// All entries, in ascending address order.
    pub fn entries(&self) -> (r: &Vec<(Address, Builtin)>)
        requires
            self.wf(),
        ensures
            r@ == self.entry_seq(),
            strictly_ascending(r@),
            lists_exactly(r@, self@),
    {
        &self.entries
    }
}

} // verus!
