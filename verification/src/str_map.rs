//! A map keyed by strings, held as a vector of entries in insertion order.
//! No key occurs twice; inserting an existing key replaces its value in
//! place.

use vstd::prelude::*;

verus! {

/// The map that a sequence of entries denotes: each entry in turn is
/// inserted, so a later entry for a key overrides an earlier one.
pub open spec fn entries_to_map<V>(s: Seq<(Seq<char>, V)>) -> Map<Seq<char>, V>
    decreases s.len(),
{
    if s.len() == 0 {
        Map::empty()
    } else {
        entries_to_map(s.drop_last()).insert(s.last().0, s.last().1)
    }
}

/// No key occurs in two entries.
pub open spec fn keys_distinct<V>(s: Seq<(Seq<char>, V)>) -> bool {
    forall|i: int, j: int| 0 <= i < j < s.len() ==> #[trigger] s[i].0 != #[trigger] s[j].0
}

/// Whether some entry has key `k`.
pub open spec fn has_key<V>(s: Seq<(Seq<char>, V)>, k: Seq<char>) -> bool {
    exists|i: int| 0 <= i < s.len() && #[trigger] s[i].0 == k
}

/// The entries after inserting `(k, v)`: the entry with key `k`, if there is
/// one, takes the new value where it stands; otherwise the pair is appended.
pub open spec fn entries_after_insert<V>(s: Seq<(Seq<char>, V)>, k: Seq<char>, v: V) -> Seq<
    (Seq<char>, V),
> {
    if has_key(s, k) {
        s.update(choose|i: int| 0 <= i < s.len() && #[trigger] s[i].0 == k, (k, v))
    } else {
        s.push((k, v))
    }
}

/// The entries after inserting each pair of `pairs` in order.
pub open spec fn insert_each<V>(s: Seq<(Seq<char>, V)>, pairs: Seq<(Seq<char>, V)>) -> Seq<
    (Seq<char>, V),
>
    decreases pairs.len(),
{
    if pairs.len() == 0 {
        s
    } else {
        entries_after_insert(insert_each(s, pairs.drop_last()), pairs.last().0, pairs.last().1)
    }
}

/// With distinct keys, the map holds exactly the entries' keys, each with
/// the value of its entry.
pub proof fn lemma_entries_to_map_lookup<V>(s: Seq<(Seq<char>, V)>)
    requires
        keys_distinct(s),
    ensures
        forall|k: Seq<char>| #[trigger] entries_to_map(s).contains_key(k) <==> has_key(s, k),
        forall|i: int| 0 <= i < s.len() ==> #[trigger] entries_to_map(s)[s[i].0] == s[i].1,
    decreases s.len(),
{
    if s.len() > 0 {
        let p = s.drop_last();
        let last = s.last();
        let n = s.len() - 1;
        assert(keys_distinct(p)) by {
            assert forall|i: int, j: int| 0 <= i < j < p.len() implies #[trigger] p[i].0
                != #[trigger] p[j].0 by {
                assert(p[i] == s[i] && p[j] == s[j]);
            }
        }
        lemma_entries_to_map_lookup(p);
        let m = entries_to_map(s);
        let mp = entries_to_map(p);
        assert(m == mp.insert(last.0, last.1));
        assert forall|k: Seq<char>| #[trigger] m.contains_key(k) <==> has_key(s, k) by {
            if has_key(p, k) {
                let i = choose|i: int| 0 <= i < p.len() && #[trigger] p[i].0 == k;
                assert(s[i] == p[i]);
                assert(s[i].0 == k);
            }
            if k == last.0 {
                assert(s[n].0 == k);
            }
            if has_key(s, k) {
                let i = choose|i: int| 0 <= i < s.len() && #[trigger] s[i].0 == k;
                if i < n {
                    assert(p[i] == s[i]);
                    assert(p[i].0 == k);
                    assert(has_key(p, k));
                }
            }
        }
        assert forall|i: int| 0 <= i < s.len() implies #[trigger] m[s[i].0] == s[i].1 by {
            if i < n {
                assert(p[i] == s[i]);
                assert(s[i].0 != s[n].0);
                assert(mp[p[i].0] == p[i].1);
            }
        }
    }
}

/// Inserting keeps the keys distinct and the denoted map is the old map with
/// the new pair.
pub proof fn lemma_entries_after_insert<V>(s: Seq<(Seq<char>, V)>, k: Seq<char>, v: V)
    requires
        keys_distinct(s),
    ensures
        keys_distinct(entries_after_insert(s, k, v)),
        entries_to_map(entries_after_insert(s, k, v)) == entries_to_map(s).insert(k, v),
{
    let t = entries_after_insert(s, k, v);
    if has_key(s, k) {
        let w = choose|i: int| 0 <= i < s.len() && #[trigger] s[i].0 == k;
        assert(keys_distinct(t)) by {
            assert forall|i: int, j: int| 0 <= i < j < t.len() implies #[trigger] t[i].0
                != #[trigger] t[j].0 by {
                if i != w && j != w {
                    assert(t[i] == s[i] && t[j] == s[j]);
                } else if i == w {
                    assert(s[j].0 != s[w].0);
                } else {
                    assert(s[i].0 != s[w].0);
                }
            }
        }
        lemma_entries_to_map_lookup(s);
        lemma_entries_to_map_lookup(t);
        assert forall|q: Seq<char>| #[trigger] has_key(t, q) <==> has_key(s, q) || q == k by {
            if has_key(t, q) {
                let i = choose|i: int| 0 <= i < t.len() && #[trigger] t[i].0 == q;
                if i != w {
                    assert(s[i].0 == q);
                }
            }
            if has_key(s, q) {
                let i = choose|i: int| 0 <= i < s.len() && #[trigger] s[i].0 == q;
                assert(t[i].0 == q);
            }
            if q == k {
                assert(t[w].0 == q);
            }
        }
        let m1 = entries_to_map(t);
        let m2 = entries_to_map(s).insert(k, v);
        assert forall|q: Seq<char>| m1.contains_key(q) implies m1[q] == m2[q] by {
            let i = choose|i: int| 0 <= i < t.len() && #[trigger] t[i].0 == q;
            assert(m1[t[i].0] == t[i].1);
            if i != w {
                assert(t[i] == s[i]);
                assert(entries_to_map(s)[s[i].0] == s[i].1);
            }
        }
        assert(m1 =~= m2);
    } else {
        assert(t.drop_last() =~= s);
        assert(keys_distinct(t)) by {
            assert forall|i: int, j: int| 0 <= i < j < t.len() implies #[trigger] t[i].0
                != #[trigger] t[j].0 by {
                if j == t.len() - 1 {
                    assert(t[i] == s[i]);
                    if s[i].0 == k {
                        assert(has_key(s, k));
                    }
                } else {
                    assert(t[i] == s[i] && t[j] == s[j]);
                }
            }
        }
    }
}

/// Inserting pairs one at a time, starting from no entries, keeps the keys
/// distinct and gives the map in which each key has the value of its last
/// pair.
pub proof fn lemma_insert_each_map<V>(pairs: Seq<(Seq<char>, V)>)
    ensures
        keys_distinct(insert_each(Seq::empty(), pairs)),
        entries_to_map(insert_each(Seq::empty(), pairs)) == entries_to_map(pairs),
    decreases pairs.len(),
{
    if pairs.len() > 0 {
        let p = pairs.drop_last();
        lemma_insert_each_map(p);
        lemma_entries_after_insert(
            insert_each(Seq::empty(), p),
            pairs.last().0,
            pairs.last().1,
        );
    }
}

/// A map from strings to values of type `V` whose entries keep the order in
/// which their keys were first inserted.
pub struct StrMap<V> {
    entries: Vec<(String, V)>,
}

impl<V> View for StrMap<V> {
    type V = Map<Seq<char>, V>;

    open spec fn view(&self) -> Map<Seq<char>, V> {
        entries_to_map(self.entry_seq())
    }
}

impl<V> StrMap<V> {
    /// The entries, in order, with keys taken by their characters.
    pub closed spec fn entry_seq(&self) -> Seq<(Seq<char>, V)> {
        self.entries@.map_values(|e: (String, V)| (e.0@, e.1))
    }

    #[verifier::type_invariant]
    closed spec fn distinct_keys(&self) -> bool {
        keys_distinct(self.entry_seq())
    }

    /// An empty map.
    pub fn new() -> (m: Self)
        ensures
            m.entry_seq() == Seq::<(Seq<char>, V)>::empty(),
            m@ == Map::<Seq<char>, V>::empty(),
            keys_distinct(m.entry_seq()),
    {
        let m = StrMap { entries: Vec::new() };
        assert(m.entry_seq() =~= Seq::<(Seq<char>, V)>::empty());
        m
    }

    /// The number of entries, which is the number of keys.
    pub fn len(&self) -> (n: usize)
        ensures
            n == self.entry_seq().len(),
            n == self@.dom().len(),
            keys_distinct(self.entry_seq()),
    {
        proof {
            use_type_invariant(self);
            self.lemma_len();
        }
        self.entries.len()
    }

    proof fn lemma_len(&self)
        requires
            self.distinct_keys(),
        ensures
            self@.dom().len() == self.entry_seq().len(),
    {
        let s = self.entry_seq();
        let keys = s.map_values(|e: (Seq<char>, V)| e.0);
        lemma_entries_to_map_lookup(s);
        assert(keys.no_duplicates()) by {
            assert forall|i: int, j: int| 0 <= i < keys.len() && 0 <= j < keys.len() && i
                != j implies keys[i] != keys[j] by {
                if i < j {
                    assert(s[i].0 != s[j].0);
                } else {
                    assert(s[j].0 != s[i].0);
                }
            }
        }
        assert(self@.dom() =~= keys.to_set()) by {
            assert forall|k: Seq<char>| self@.dom().contains(k) <==> keys.to_set().contains(k) by {
                if has_key(s, k) {
                    let i = choose|i: int| 0 <= i < s.len() && #[trigger] s[i].0 == k;
                    assert(keys[i] == k);
                }
                if keys.contains(k) {
                    let i = choose|i: int| 0 <= i < keys.len() && keys[i] == k;
                    assert(s[i].0 == k);
                }
            }
        }
        keys.unique_seq_to_set();
    }

    /// The entry at position `i`.
    pub fn get_index(&self, i: usize) -> (r: (&String, &V))
        requires
            i < self.entry_seq().len(),
        ensures
            r.0@ == self.entry_seq()[i as int].0,
            *r.1 == self.entry_seq()[i as int].1,
            keys_distinct(self.entry_seq()),
    {
        proof {
            use_type_invariant(self);
        }
        let e = &self.entries[i];
        (&e.0, &e.1)
    }

    /// The value stored under `key`, if any.
    pub fn get(&self, key: &String) -> (r: Option<&V>)
        ensures
            r == (if self@.contains_key(key@) {
                Some(&self@[key@])
            } else {
                None::<&V>
            }),
            keys_distinct(self.entry_seq()),
    {
        proof {
            use_type_invariant(self);
            lemma_entries_to_map_lookup(self.entry_seq());
        }
        let mut i: usize = 0;
        while i < self.entries.len()
            invariant
                i <= self.entries.len(),
                keys_distinct(self.entry_seq()),
                forall|k: Seq<char>| #[trigger]
                    entries_to_map(self.entry_seq()).contains_key(k) <==> has_key(
                        self.entry_seq(),
                        k,
                    ),
                forall|j: int|
                    0 <= j < self.entry_seq().len() ==> #[trigger] entries_to_map(
                        self.entry_seq(),
                    )[self.entry_seq()[j].0] == self.entry_seq()[j].1,
                forall|j: int| 0 <= j < i ==> self.entry_seq()[j].0 != key@,
            decreases self.entries.len() - i,
        {
            if self.entries[i].0 == *key {
                proof {
                    assert(self.entry_seq()[i as int] == (
                        self.entries@[i as int].0@,
                        self.entries@[i as int].1,
                    ));
                    assert(self.entry_seq()[i as int].0 == key@);
                    assert(has_key(self.entry_seq(), key@));
                }
                return Some(&self.entries[i].1);
            }
            i = i + 1;
        }
        proof {
            if has_key(self.entry_seq(), key@) {
                let j = choose|j: int|
                    0 <= j < self.entry_seq().len() && #[trigger] self.entry_seq()[j].0 == key@;
                assert(self.entry_seq()[j].0 != key@);
            }
        }
        None
    }

    /// Stores `value` under `key`, replacing the value that was there.
    pub fn insert(&mut self, key: String, value: V)
        ensures
            final(self).entry_seq() == entries_after_insert(old(self).entry_seq(), key@, value),
            final(self)@ == old(self)@.insert(key@, value),
            keys_distinct(final(self).entry_seq()),
    {
        proof {
            use_type_invariant(&*self);
            lemma_entries_after_insert(self.entry_seq(), key@, value);
        }
        let ghost s = self.entry_seq();
        let mut entries: Vec<(String, V)> = Vec::new();
        std::mem::swap(&mut entries, &mut self.entries);
        assert(entries@.map_values(|e: (String, V)| (e.0@, e.1)) == s);
        let mut i: usize = 0;
        let mut found = false;
        while i < entries.len()
            invariant_except_break
                !found,
            invariant
                i <= entries.len(),
                entries@.map_values(|e: (String, V)| (e.0@, e.1)) == s,
                keys_distinct(s),
                forall|j: int| 0 <= j < i ==> s[j].0 != key@,
            ensures
                found ==> i < s.len() && s[i as int].0 == key@,
                !found ==> i == s.len(),
            decreases entries.len() - i,
        {
            if entries[i].0 == key {
                assert(s[i as int] == (entries@[i as int].0@, entries@[i as int].1));
                found = true;
                break;
            }
            i = i + 1;
        }
        let ghost kv = key@;
        if found {
            proof {
                assert(s[i as int].0 == key@);
                let w = choose|w: int| 0 <= w < s.len() && #[trigger] s[w].0 == key@;
                if w != i {
                    if w < i {
                        assert(s[w].0 != key@);
                    } else {
                        assert(s[i as int].0 != s[w].0);
                    }
                }
            }
            entries.set(i, (key, value));
            assert(entries@.map_values(|e: (String, V)| (e.0@, e.1)) =~= s.update(
                i as int,
                (kv, value),
            ));
        } else {
            proof {
                if has_key(s, key@) {
                    let j = choose|j: int| 0 <= j < s.len() && #[trigger] s[j].0 == key@;
                    assert(s[j].0 != key@);
                }
            }
            entries.push((key, value));
            assert(entries@.map_values(|e: (String, V)| (e.0@, e.1)) =~= s.push((kv, value)));
        }
        self.entries = entries;
    }
}

/// The map of a sequence of entries gives each key the value of its last
/// entry.
pub proof fn lemma_last_entry_wins<V>(s: Seq<(Seq<char>, V)>, i: int)
    requires
        0 <= i < s.len(),
        forall|j: int| i < j < s.len() ==> s[j].0 != s[i].0,
    ensures
        entries_to_map(s).contains_key(s[i].0),
        entries_to_map(s)[s[i].0] == s[i].1,
    decreases s.len(),
{
    if i < s.len() - 1 {
        let p = s.drop_last();
        assert forall|j: int| i < j < p.len() implies p[j].0 != p[i].0 by {
            assert(p[j] == s[j] && p[i] == s[i]);
        }
        lemma_last_entry_wins(p, i);
        assert(p[i] == s[i]);
        assert(s.last().0 != s[i].0);
    }
}

} // verus!
