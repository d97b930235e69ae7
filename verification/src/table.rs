//! A small map from text keys to values, kept in key order.
//!
//! It stands in for a `BTreeMap<String, _>`: with `String` keys, the map's
//! specification in vstd does not let Verus prove even the size after one
//! insertion, whereas this table's order, lookups and insertions are proved
//! here.
use crate::text::{chars_of, chars_precede, lemma_precedes_asymmetric, lemma_precedes_irreflexive,
    lemma_precedes_total, lemma_precedes_transitive, precedes};
use vstd::prelude::*;

verus! {

/// Keys in strictly increasing order (hence also free of repeats).
pub open spec fn strictly_sorted(keys: Seq<Seq<char>>) -> bool {
    forall|i: int, j: int| 0 <= i < j < keys.len() ==> precedes(#[trigger] keys[i], #[trigger] keys[j])
}

/// The keys of a list of entries.
pub open spec fn keys_of<V>(entries: Seq<(String, V)>) -> Seq<Seq<char>> {
    entries.map_values(|e: (String, V)| e.0@)
}

/// A list of entries read as a map from keys to values (for a list without
/// repeated keys; otherwise one of the values of a repeated key).
pub open spec fn entries_map<V>(entries: Seq<(String, V)>) -> Map<Seq<char>, V> {
    Map::new(
        |k: Seq<char>| exists|i: int| 0 <= i < entries.len() && #[trigger] entries[i].0@ == k,
        |k: Seq<char>|
            entries[choose|i: int| 0 <= i < entries.len() && #[trigger] entries[i].0@ == k].1,
    )
}

/// Reading one more entry of a list with strictly increasing keys adds that
/// entry to the map.
pub proof fn lemma_entries_map_extend<V>(s: Seq<(String, V)>, k: int)
    requires
        strictly_sorted(keys_of(s)),
        0 <= k < s.len(),
    ensures
        entries_map(s.take(k + 1)) == entries_map(s.take(k)).insert(s[k].0@, s[k].1),
{
    let a = s.take(k + 1);
    let b = s.take(k);
    let keys = keys_of(s);
    assert forall|i: int, j: int| 0 <= i < s.len() && 0 <= j < s.len() && s[i].0@ == s[j].0@ implies i == j by {
        assert(keys[i] == s[i].0@ && keys[j] == s[j].0@);
        if i < j {
            assert(precedes(keys[i], keys[j]));
            lemma_precedes_irreflexive(keys[i]);
        } else if j < i {
            assert(precedes(keys[j], keys[i]));
            lemma_precedes_irreflexive(keys[i]);
        }
    }
    let ma = entries_map(a);
    let mb = entries_map(b).insert(s[k].0@, s[k].1);
    assert forall|q: Seq<char>| ma.contains_key(q) == mb.contains_key(q) by {
        if ma.contains_key(q) {
            let i = choose|i: int| 0 <= i < a.len() && #[trigger] a[i].0@ == q;
            if i < k {
                assert(b[i].0@ == q);
            }
        }
        if entries_map(b).contains_key(q) {
            let i = choose|i: int| 0 <= i < b.len() && #[trigger] b[i].0@ == q;
            assert(a[i].0@ == q);
        }
        if q == s[k].0@ {
            assert(a[k].0@ == q);
        }
    }
    assert forall|q: Seq<char>| ma.contains_key(q) implies ma[q] == mb[q] by {
        let i = choose|i: int| 0 <= i < a.len() && #[trigger] a[i].0@ == q;
        if q != s[k].0@ {
            let j = choose|j: int| 0 <= j < b.len() && #[trigger] b[j].0@ == q;
            assert(a[j].0@ == q);
            assert(i == j);
        }
    }
    assert(ma =~= mb);
}

/// Entries keyed by text, one per key, listed in key order.
pub struct Table<V> {
    items: Vec<(String, V)>,
}

impl<V> Table<V> {
    /// The entries in key order.
    pub closed spec fn entries(&self) -> Seq<(String, V)> {
        self.items@
    }

    /// The keys in order.
    pub open spec fn keys(&self) -> Seq<Seq<char>> {
        keys_of(self.entries())
    }

    #[verifier::type_invariant]
    closed spec fn sorted(&self) -> bool {
        strictly_sorted(self.keys())
    }

    /// Whether some entry has key `k`.
    pub open spec fn has(&self, k: Seq<char>) -> bool {
        exists|i: int| 0 <= i < self.entries().len() && #[trigger] self.entries()[i].0@ == k
    }

    /// The value stored under `k` (meaningful when `has(k)`).
    pub open spec fn at(&self, k: Seq<char>) -> V {
        self.entries()[choose|i: int|
            0 <= i < self.entries().len() && #[trigger] self.entries()[i].0@ == k].1
    }

    /// The table as a map from keys to values.
    pub open spec fn map(&self) -> Map<Seq<char>, V> {
        entries_map(self.entries())
    }

    /// The entry at position `i` is what the map holds under its key.
    pub proof fn lemma_entry(&self, i: int)
        requires
            strictly_sorted(self.keys()),
            0 <= i < self.entries().len(),
        ensures
            self.map().contains_key(self.entries()[i].0@),
            self.map()[self.entries()[i].0@] == self.entries()[i].1,
    {
        let k = self.entries()[i].0@;
        assert(self.has(k));
        assert forall|c: int| 0 <= c < self.entries().len() && #[trigger] self.entries()[c].0@ == k implies c == i by {
            if c != i {
                assert(self.keys()[c] == k && self.keys()[i] == k);
                if c < i {
                    assert(precedes(self.keys()[c], self.keys()[i]));
                } else {
                    assert(precedes(self.keys()[i], self.keys()[c]));
                }
                lemma_precedes_irreflexive(k);
            }
        }
        assert(self.map()[k] == self.at(k));
    }

    /// The map has exactly one key per entry.
    pub proof fn lemma_size(&self)
        requires
            strictly_sorted(self.keys()),
        ensures
            self.map().dom().finite(),
            self.map().dom().len() == self.entries().len(),
            self.map().dom() == self.keys().to_set(),
    {
        let keys = self.keys();
        assert forall|k: Seq<char>| self.map().dom().contains(k) == keys.to_set().contains(k) by {
            if self.has(k) {
                let i = choose|i: int| 0 <= i < self.entries().len() && #[trigger] self.entries()[i].0@ == k;
                assert(keys[i] == k);
            }
            if keys.contains(k) {
                let i = choose|i: int| 0 <= i < keys.len() && keys[i] == k;
                assert(self.entries()[i].0@ == k);
            }
        }
        assert(self.map().dom() =~= keys.to_set());
        assert forall|i: int, j: int| 0 <= i < keys.len() && 0 <= j < keys.len() && i != j implies keys[i] != keys[j] by {
            if i < j {
                assert(precedes(keys[i], keys[j]));
            } else {
                assert(precedes(keys[j], keys[i]));
            }
            lemma_precedes_irreflexive(keys[i]);
        }
        assert(keys.no_duplicates());
        keys.unique_seq_to_set();
        vstd::seq_lib::seq_to_set_is_finite(keys);
    }

    /// An empty table.
    pub fn new() -> (t: Self)
        ensures
            t.entries().len() == 0,
            t.map() == Map::<Seq<char>, V>::empty(),
    {
        let t = Table { items: Vec::new() };
        assert(t.map() =~= Map::<Seq<char>, V>::empty());
        t
    }

    /// Number of entries.
    pub fn len(&self) -> (n: usize)
        ensures
            n == self.entries().len(),
            strictly_sorted(self.keys()),
    {
        proof {
            use_type_invariant(self);
        }
        self.items.len()
    }

    /// The entry at position `i`.
    pub fn entry(&self, i: usize) -> (e: &(String, V))
        requires
            i < self.entries().len(),
        ensures
            *e == self.entries()[i as int],
    {
        &self.items[i]
    }

    /// The entries, in key order.
    pub fn into_entries(self) -> (r: Vec<(String, V)>)
        ensures
            r@ == self.entries(),
            strictly_sorted(keys_of(r@)),
    {
        proof {
            use_type_invariant(&self);
        }
        self.items
    }

    /// Position of the first entry whose key does not precede `key`.
    fn position(&self, key: &Vec<char>) -> (p: usize)
        ensures
            p <= self.entries().len(),
            forall|j: int| 0 <= j < p ==> precedes(#[trigger] self.keys()[j], key@),
            p < self.entries().len() ==> !precedes(self.keys()[p as int], key@),
    {
        let mut p: usize = 0;
        while p < self.items.len()
            invariant
                p <= self.entries().len(),
                forall|j: int| 0 <= j < p ==> precedes(#[trigger] self.keys()[j], key@),
            decreases self.entries().len() - p,
        {
            let here = chars_of(self.items[p].0.as_str());
            if !chars_precede(&here, key) {
                return p;
            }
            p = p + 1;
        }
        p
    }

    /// Index of the entry with key `key`, if any.
    pub fn find(&self, key: &str) -> (r: Option<usize>)
        ensures
            match r {
                Some(i) => i < self.entries().len() && self.entries()[i as int].0@ == key@,
                None => !self.has(key@),
            },
    {
        proof {
            use_type_invariant(self);
        }
        let wanted = chars_of(key);
        let p = self.position(&wanted);
        if p < self.items.len() {
            let here = chars_of(self.items[p].0.as_str());
            if !chars_precede(&wanted, &here) {
                proof {
                    lemma_precedes_total(here@, wanted@);
                }
                return Some(p);
            }
        }
        proof {
            assert forall|i: int| 0 <= i < self.entries().len() implies #[trigger] self.entries()[i].0@
                != key@ by {
                assert(self.keys()[i] == self.entries()[i].0@);
                if self.entries()[i].0@ == key@ {
                    if i < p {
                        lemma_precedes_irreflexive(key@);
                    } else if i > p {
                        assert(precedes(self.keys()[p as int], self.keys()[i]));
                        assert(precedes(wanted@, self.keys()[p as int]) || wanted@ == self.keys()[p as int]) by {
                            lemma_precedes_total(wanted@, self.keys()[p as int]);
                        }
                        if wanted@ != self.keys()[p as int] {
                            lemma_precedes_asymmetric(wanted@, self.keys()[p as int]);
                        }
                    }
                }
            }
        }
        None
    }

    /// The value stored under `key`, if any.
    pub fn get(&self, key: &str) -> (r: Option<&V>)
        ensures
            r is Some <==> self.map().contains_key(key@),
            r matches Some(v) ==> *v == self.map()[key@],
    {
        proof {
            use_type_invariant(self);
        }
        match self.find(key) {
            Some(i) => {
                proof {
                    self.lemma_entry(i as int);
                }
                Some(&self.items[i].1)
            },
            None => None,
        }
    }

    /// Stores `value` under `key`, replacing any earlier value of that key.
    pub fn insert(&mut self, key: String, value: V)
        ensures
            final(self).map() == old(self).map().insert(key@, value),
            final(self).entries().len() == old(self).entries().len() + (if old(self).has(key@) {
                0int
            } else {
                1int
            }),
    {
        proof {
            use_type_invariant(&*self);
        }
        let ghost before = *self;
        let wanted = chars_of(key.as_str());
        let p = self.position(&wanted);
        let mut items: Vec<(String, V)> = Vec::new();
        std::mem::swap(&mut items, &mut self.items);
        assert(items@ == before.entries());
        let ghost k = key@;
        let replace = if p < items.len() {
            let here = chars_of(items[p].0.as_str());
            !chars_precede(&wanted, &here)
        } else {
            false
        };
        if replace {
            proof {
                lemma_precedes_total(before.keys()[p as int], k);
            }
            items.set(p, (key, value));
        } else {
            proof {
                if p < items@.len() {
                    lemma_precedes_total(before.keys()[p as int], k);
                }
            }
            items.insert(p, (key, value));
        }
        let ghost after_keys = items@.map_values(|e: (String, V)| e.0@);
        proof {
            assert forall|i: int, j: int| 0 <= i < j < after_keys.len() implies precedes(
                #[trigger] after_keys[i],
                #[trigger] after_keys[j],
            ) by {
                let old_keys = before.keys();
                if replace {
                    if i == p {
                        assert(after_keys[i] == old_keys[i]);
                    }
                    if j == p {
                        assert(after_keys[j] == old_keys[j]);
                    }
                    assert(after_keys[i] == old_keys[i]);
                    assert(after_keys[j] == old_keys[j]);
                } else {
                    if j < p {
                        assert(after_keys[i] == old_keys[i] && after_keys[j] == old_keys[j]);
                    } else if j == p {
                        assert(after_keys[i] == old_keys[i]);
                    } else if i == p {
                        assert(after_keys[j] == old_keys[j - 1]);
                        if j - 1 > p {
                            lemma_precedes_transitive(k, old_keys[p as int], old_keys[j - 1]);
                        }
                    } else if i < p {
                        assert(after_keys[i] == old_keys[i] && after_keys[j] == old_keys[j - 1]);
                        if j - 1 >= p {
                            lemma_precedes_transitive(old_keys[i], k, old_keys[p as int]);
                            if j - 1 > p {
                                lemma_precedes_transitive(old_keys[i], old_keys[p as int], old_keys[j - 1]);
                            }
                        }
                    } else {
                        assert(after_keys[i] == old_keys[i - 1] && after_keys[j] == old_keys[j - 1]);
                    }
                }
            }
        }
        self.items = items;
        proof {
            use_type_invariant(&*self);
            let m0 = before.map();
            let m1 = self.map();
            assert forall|q: Seq<char>| #[trigger] m1.contains_key(q) == m0.insert(k, value).contains_key(q) by {
                if m1.contains_key(q) {
                    let c = choose|c: int| 0 <= c < self.entries().len() && #[trigger] self.entries()[c].0@ == q;
                    if q != k {
                        if replace || c < p {
                            assert(before.entries()[c].0@ == q);
                        } else {
                            assert(before.entries()[c - 1].0@ == q);
                        }
                    }
                }
                if m0.contains_key(q) {
                    let c = choose|c: int| 0 <= c < before.entries().len() && #[trigger] before.entries()[c].0@ == q;
                    if replace || c < p {
                        assert(self.entries()[c].0@ == q);
                    } else {
                        assert(self.entries()[c + 1].0@ == q);
                    }
                }
                if q == k {
                    assert(self.entries()[p as int].0@ == q);
                }
            }
            assert forall|q: Seq<char>| #[trigger] m1.contains_key(q) implies m1[q] == m0.insert(k, value)[q] by {
                let c = choose|c: int| 0 <= c < self.entries().len() && #[trigger] self.entries()[c].0@ == q;
                self.lemma_entry(c);
                if q == k {
                    if c != p {
                        self.lemma_entry(p as int);
                    }
                } else if replace || c < p {
                    before.lemma_entry(c);
                } else {
                    before.lemma_entry(c - 1);
                }
            }
            assert(m1 =~= m0.insert(k, value));
            if before.has(k) {
                let c = choose|c: int| 0 <= c < before.entries().len() && #[trigger] before.entries()[c].0@ == k;
                assert(before.keys()[c] == k);
                if c < p {
                    lemma_precedes_irreflexive(k);
                } else if c > p {
                    assert(precedes(before.keys()[p as int], before.keys()[c]));
                    if !replace {
                        lemma_precedes_asymmetric(k, before.keys()[p as int]);
                    }
                }
                assert(replace);
            } else if replace {
                assert(before.entries()[p as int].0@ == k);
            }
        }
    }
}

} // verus!
