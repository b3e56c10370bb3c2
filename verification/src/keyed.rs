//! Maps keyed by text, held in key order as a `BTreeMap<String, _>` holds them.
use vstd::prelude::*;

use crate::text::{
    lemma_text_le_antisymmetric, lemma_text_le_reflexive, lemma_text_le_total,
    lemma_text_le_transitive, str_eq, str_le, text_le, text_lt,
};

verus! {

/// Some entry of `s` has key `k`.
pub open spec fn has_key<V>(s: Seq<(String, V)>, k: Seq<char>) -> bool {
    exists|i: int| 0 <= i < s.len() && (#[trigger] s[i]).0@ == k
}

/// The value of an entry of `s` with key `k`.
pub open spec fn value_for<V>(s: Seq<(String, V)>, k: Seq<char>) -> V {
    s[choose|i: int| 0 <= i < s.len() && (#[trigger] s[i]).0@ == k].1
}

/// The map that a list of entries with distinct keys stands for.
pub open spec fn entries_map<V>(s: Seq<(String, V)>) -> Map<Seq<char>, V> {
    Map::new(|k: Seq<char>| has_key(s, k), |k: Seq<char>| value_for(s, k))
}

/// Keys strictly increasing in text order, so each occurs once.
pub open spec fn keys_increasing<V>(s: Seq<(String, V)>) -> bool {
    forall|i: int, j: int|
        0 <= i < j < s.len() ==> text_lt((#[trigger] s[i]).0@, (#[trigger] s[j]).0@)
}

/// Where keys are increasing, entry `i` is the one the map reads for its key.
pub proof fn lemma_value_for<V>(s: Seq<(String, V)>, i: int)
    requires
        keys_increasing(s),
        0 <= i < s.len(),
    ensures
        has_key(s, s[i].0@),
        value_for(s, s[i].0@) == s[i].1,
{
    assert(s[i].0@ == s[i].0@);
    let j = choose|j: int| 0 <= j < s.len() && (#[trigger] s[j]).0@ == s[i].0@;
    if j < i {
        assert(text_lt(s[j].0@, s[i].0@));
    } else if j > i {
        assert(text_lt(s[i].0@, s[j].0@));
    }
}

/// A map from text keys, kept in key order.
///
/// vstd specifies std's `BTreeMap` only for keys that obey its model of `Ord`, and gives
/// `String` no such model, so a `BTreeMap<String, V>` would carry no usable contract. The map
/// is therefore held as its entries in key order, the order `BTreeMap` iterates in, with that
/// order as the type's invariant.
pub struct KeyedMap<V> {
    entries: Vec<(String, V)>,
}

impl<V> KeyedMap<V> {
    #[verifier::type_invariant]
    spec fn well_ordered(self) -> bool {
        keys_increasing(self.entries@)
    }

    /// The entries in key order.
    pub closed spec fn entry_seq(&self) -> Seq<(String, V)> {
        self.entries@
    }

    pub closed spec fn view(&self) -> Map<Seq<char>, V> {
        entries_map(self.entries@)
    }

    /// The empty map.
    pub fn new() -> (r: KeyedMap<V>)
        ensures
            r@ == Map::<Seq<char>, V>::empty(),
    {
        let r = KeyedMap { entries: Vec::new() };
        assert(r@ =~= Map::<Seq<char>, V>::empty());
        r
    }

    /// The entries in key order: each key once, each with its value.
    pub fn entries(&self) -> (r: &Vec<(String, V)>)
        ensures
            r@ == self.entry_seq(),
            keys_increasing(r@),
            forall|k: Seq<char>| self@.contains_key(k) <==> has_key(r@, k),
            forall|i: int| 0 <= i < r@.len() ==> self@[(#[trigger] r@[i]).0@] == r@[i].1,
    {
        proof {
            use_type_invariant(self);
            assert forall|i: int| 0 <= i < self.entries@.len() implies self@[(
            #[trigger] self.entries@[i]).0@] == self.entries@[i].1 by {
                lemma_value_for(self.entries@, i);
            }
        }
        &self.entries
    }

    /// The value under `key`, where there is one.
    pub fn get(&self, key: &str) -> (r: Option<&V>)
        ensures
            match r {
                Some(v) => self@.contains_key(key@) && *v == self@[key@],
                None => !self@.contains_key(key@),
            },
    {
        proof {
            use_type_invariant(self);
        }
        let mut i: usize = 0;
        while i < self.entries.len()
            invariant
                i <= self.entries@.len(),
                keys_increasing(self.entries@),
                forall|j: int| 0 <= j < i ==> (#[trigger] self.entries@[j]).0@ != key@,
            decreases self.entries.len() - i,
        {
            if str_eq(self.entries[i].0.as_str(), key) {
                proof {
                    lemma_value_for(self.entries@, i as int);
                }
                return Some(&self.entries[i].1);
            }
            i += 1;
        }
        None
    }

    /// Sets `key` to `value`, in place of any value it had.
    pub fn insert(&mut self, key: String, value: V)
        ensures
            final(self)@ == old(self)@.insert(key@, value),
    {
        proof {
            use_type_invariant(&*self);
        }
        let ghost before = self@;
        let mut entries: Vec<(String, V)> = Vec::new();
        std::mem::swap(&mut entries, &mut self.entries);
        let ghost old_e = entries@;
        assert(entries_map(old_e) == before);
        let mut p: usize = 0;
        while p < entries.len() && !str_le(key.as_str(), entries[p].0.as_str())
            invariant
                p <= entries@.len(),
                entries@ == old_e,
                forall|i: int| 0 <= i < p ==> !text_le(key@, (#[trigger] entries@[i]).0@),
            decreases entries.len() - p,
        {
            p += 1;
        }
        let replace = p < entries.len() && str_eq(entries[p].0.as_str(), key.as_str());
        let ghost k = key@;
        if replace {
            entries.remove(p);
        }
        entries.insert(p, (key, value));
        proof {
            let e = entries@;
            // Everything before `p` is below the key, everything after is above it.
            assert forall|i: int| 0 <= i < p implies text_lt((#[trigger] old_e[i]).0@, k) by {
                lemma_text_le_total(k, old_e[i].0@);
                lemma_text_le_reflexive(k);
            }
            let after = if replace { p + 1 } else { p as int };
            assert forall|i: int| after <= i < old_e.len() implies text_lt(k, (#[trigger] old_e[i]).0@) by {
                if p < old_e.len() {
                    assert(text_le(k, old_e[p as int].0@));
                    if i > p {
                        assert(text_lt(old_e[p as int].0@, old_e[i].0@));
                        lemma_text_le_transitive(k, old_e[p as int].0@, old_e[i].0@);
                        if k == old_e[i].0@ {
                            lemma_text_le_antisymmetric(k, old_e[p as int].0@);
                        }
                    }
                }
            }
            assert(e.len() == old_e.len() + if replace { 0int } else { 1int });
            assert forall|i: int| 0 <= i < e.len() implies #[trigger] e[i] == (if i < p {
                old_e[i]
            } else if i == p {
                (e[p as int].0, e[p as int].1)
            } else if replace {
                old_e[i]
            } else {
                old_e[i - 1]
            }) by {}
            assert(keys_increasing(e)) by {
                assert forall|i: int, j: int| 0 <= i < j < e.len() implies text_lt(
                    (#[trigger] e[i]).0@,
                    (#[trigger] e[j]).0@,
                ) by {
                    if j < p {
                        assert(text_lt(old_e[i].0@, old_e[j].0@));
                    } else if i < p && j == p {
                    } else if i == p {
                        let oj = if replace { j } else { j - 1 };
                        assert(e[j] == old_e[oj]);
                    } else if i < p {
                        let oj = if replace { j } else { j - 1 };
                        assert(e[j] == old_e[oj]);
                        lemma_text_le_transitive(e[i].0@, k, e[j].0@);
                        if e[i].0@ == e[j].0@ {
                            lemma_text_le_antisymmetric(k, e[j].0@);
                        }
                    } else {
                        let oi = if replace { i } else { i - 1 };
                        let oj = if replace { j } else { j - 1 };
                        assert(e[i] == old_e[oi]);
                        assert(e[j] == old_e[oj]);
                        assert(text_lt(old_e[oi].0@, old_e[oj].0@));
                    }
                }
            }
            assert(entries_map(e) =~= before.insert(k, e[p as int].1)) by {
                assert forall|key2: Seq<char>| #[trigger] has_key(e, key2) <==> (has_key(
                    old_e,
                    key2,
                ) || key2 == k) by {
                    if has_key(e, key2) {
                        let i = choose|i: int| 0 <= i < e.len() && (#[trigger] e[i]).0@ == key2;
                        if i < p {
                            assert(old_e[i].0@ == key2);
                        } else if i > p {
                            let oi = if replace { i } else { i - 1 };
                            assert(old_e[oi].0@ == key2);
                        }
                    }
                    if has_key(old_e, key2) && key2 != k {
                        let i = choose|i: int| 0 <= i < old_e.len() && (#[trigger] old_e[i]).0@
                            == key2;
                        if i < p {
                            assert(e[i].0@ == key2);
                        } else if replace && i == p {
                            assert(old_e[p as int].0@ == k);
                        } else {
                            let ni = if replace { i } else { i + 1 };
                            assert(e[ni].0@ == key2);
                        }
                    }
                    if key2 == k {
                        assert(e[p as int].0@ == k);
                    }
                }
                assert forall|key2: Seq<char>| has_key(e, key2) implies value_for(e, key2) == (
                if key2 == k {
                    e[p as int].1
                } else {
                    value_for(old_e, key2)
                }) by {
                    let i = choose|i: int| 0 <= i < e.len() && (#[trigger] e[i]).0@ == key2;
                    lemma_value_for(e, i);
                    if i != p {
                        let oi = if i < p || replace { i } else { i - 1 };
                        assert(e[i] == old_e[oi]);
                        lemma_value_for(old_e, oi);
                    }
                }
            }
        }
        self.entries = entries;
    }

    /// Adds each entry of `other`, whose values win over those already here, as
    /// `BTreeMap::extend` does.
    pub fn extend(&mut self, other: KeyedMap<V>)
        ensures
            final(self)@ == old(self)@.union_prefer_right(other@),
    {
        proof {
            use_type_invariant(&other);
        }
        let ghost base = self@;
        let ghost all = other.entries@;
        let ghost n = all.len();
        let KeyedMap { entries } = other;
        let mut entries = entries;
        assert(all.subrange(n as int, n as int) =~= Seq::<(String, V)>::empty());
        assert(entries_map(all.subrange(n as int, n as int)) =~= Map::<Seq<char>, V>::empty());
        assert(self@ =~= base.union_prefer_right(entries_map(all.subrange(n as int, n as int))));
        while entries.len() > 0
            invariant
                entries@ == all.take(entries@.len() as int),
                entries@.len() <= n,
                n == all.len(),
                keys_increasing(all),
                self@ == base.union_prefer_right(entries_map(all.subrange(entries@.len() as int, n as int))),
            decreases entries.len(),
        {
            let ghost m = entries@.len() as int;
            let (k, v) = entries.pop().unwrap();
            proof {
                assert(all[m - 1] == (k, v));
                let rest = all.subrange(m, n as int);
                let more = all.subrange(m - 1, n as int);
                assert(keys_increasing(more));
                assert(more[0] == (k, v));
                assert(entries_map(more) =~= entries_map(rest).insert(k@, v)) by {
                    assert forall|key2: Seq<char>| #[trigger] has_key(more, key2) <==> (has_key(
                        rest,
                        key2,
                    ) || key2 == k@) by {
                        if has_key(more, key2) {
                            let i = choose|i: int| 0 <= i < more.len() && (#[trigger] more[i]).0@
                                == key2;
                            if i > 0 {
                                assert(rest[i - 1].0@ == key2);
                            }
                        }
                        if has_key(rest, key2) {
                            let i = choose|i: int| 0 <= i < rest.len() && (#[trigger] rest[i]).0@
                                == key2;
                            assert(more[i + 1].0@ == key2);
                        }
                        if key2 == k@ {
                            assert(more[0].0@ == key2);
                        }
                    }
                    assert forall|key2: Seq<char>| has_key(more, key2) implies value_for(
                        more,
                        key2,
                    ) == (if key2 == k@ {
                        v
                    } else {
                        value_for(rest, key2)
                    }) by {
                        let i = choose|i: int| 0 <= i < more.len() && (#[trigger] more[i]).0@
                            == key2;
                        lemma_value_for(more, i);
                        if i > 0 {
                            assert(more[i] == rest[i - 1]);
                            assert(keys_increasing(rest));
                            lemma_value_for(rest, i - 1);
                        }
                    }
                }
                assert(entries@ =~= all.take(m - 1));
            }
            self.insert(k, v);
            proof {
                let rest = all.subrange(m, n as int);
                let more = all.subrange(m - 1, n as int);
                assert(self@ =~= base.union_prefer_right(entries_map(more)));
            }
        }
        assert(all.subrange(0, n as int) =~= all);
    }
}

} // verus!
