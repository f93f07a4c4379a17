//! A small association map from `String` keys to arbitrary values, backed by
//! a vector of entries with pairwise-distinct keys. Registries throughout the
//! crate (textures, materials, models, particle systems) are keyed by paths or
//! names, and they also need a stable, deterministic iteration order for
//! snapshot export, which this representation provides. The abstract view is
//! a `Map<Seq<char>, V>`.

use vstd::prelude::*;

verus! {

/// Abstraction of an entry sequence as a map from key view to value.
pub open spec fn seq_to_map<V>(s: Seq<(String, V)>) -> Map<Seq<char>, V>
    decreases s.len(),
{
    if s.len() == 0 {
        Map::empty()
    } else {
        seq_to_map(s.drop_last()).insert(s.last().0@, s.last().1)
    }
}

/// Pairwise-distinct keys.
pub open spec fn unique_keys<V>(s: Seq<(String, V)>) -> bool {
    forall|i: int, j: int|
        0 <= i < j < s.len() ==> (#[trigger] s[i]).0@ != (#[trigger] s[j]).0@
}

/// A key is in the abstract map exactly when some entry carries it.
pub proof fn lemma_map_domain<V>(s: Seq<(String, V)>, k: Seq<char>)
    ensures
        seq_to_map(s).contains_key(k) <==> exists|i: int|
            0 <= i < s.len() && (#[trigger] s[i]).0@ == k,
    decreases s.len(),
{
    if s.len() > 0 {
        lemma_map_domain(s.drop_last(), k);
        if seq_to_map(s).contains_key(k) && s.last().0@ != k {
            let i = choose|i: int| 0 <= i < s.drop_last().len() && (#[trigger] s.drop_last()[i]).0@ == k;
            assert((s[i]).0@ == k);
        }
        if exists|i: int| 0 <= i < s.len() && (#[trigger] s[i]).0@ == k {
            let i = choose|i: int| 0 <= i < s.len() && (#[trigger] s[i]).0@ == k;
            if i < s.len() - 1 {
                assert((s.drop_last()[i]).0@ == k);
            }
        }
    }
}

/// With distinct keys, the abstract map sends each entry's key to its value.
pub proof fn lemma_map_index<V>(s: Seq<(String, V)>, i: int)
    requires
        unique_keys(s),
        0 <= i < s.len(),
    ensures
        seq_to_map(s).contains_key(s[i].0@),
        seq_to_map(s)[s[i].0@] == s[i].1,
    decreases s.len(),
{
    if i < s.len() - 1 {
        lemma_map_index(s.drop_last(), i);
        assert(s.drop_last()[i] == s[i]);
    }
}

/// Overwriting the entry that holds a key updates the abstract map in place.
pub proof fn lemma_map_update<V>(s: Seq<(String, V)>, i: int, v: V)
    requires
        unique_keys(s),
        0 <= i < s.len(),
    ensures
        seq_to_map(s.update(i, (s[i].0, v))) =~= seq_to_map(s).insert(s[i].0@, v),
    decreases s.len(),
{
    let t = s.update(i, (s[i].0, v));
    if i == s.len() - 1 {
        assert(t.drop_last() =~= s.drop_last());
    } else {
        lemma_map_update(s.drop_last(), i, v);
        assert(t.drop_last() =~= s.drop_last().update(i, (s[i].0, v)));
        assert(t.last() == s.last());
        lemma_map_domain(s.drop_last(), s[i].0@);
        assert(s.drop_last()[i] == s[i]);
    }
}

/// Deleting the entry that holds a key removes that key from the abstract map.
pub proof fn lemma_map_remove<V>(s: Seq<(String, V)>, i: int)
    requires
        unique_keys(s),
        0 <= i < s.len(),
    ensures
        seq_to_map(s.remove(i)) =~= seq_to_map(s).remove(s[i].0@),
    decreases s.len(),
{
    if i == s.len() - 1 {
        assert(s.remove(i) =~= s.drop_last());
        lemma_map_domain(s.drop_last(), s[i].0@);
    } else {
        lemma_map_remove(s.drop_last(), i);
        assert(s.remove(i).drop_last() =~= s.drop_last().remove(i));
        assert(s.remove(i).last() == s.last());
        assert(s.drop_last()[i] == s[i]);
    }
}

/// An association map with `String` keys, deterministic entry order, and a
/// `Map<Seq<char>, V>` view.
pub struct StrMap<V> {
    pub entries: Vec<(String, V)>,
}

impl<V> View for StrMap<V> {
    type V = Map<Seq<char>, V>;

    open spec fn view(&self) -> Map<Seq<char>, V> {
        seq_to_map(self.entries@)
    }
}

impl<V> StrMap<V> {
    /// Well-formed: no key occurs twice.
    pub open spec fn wf(self) -> bool {
        unique_keys(self.entries@)
    }

    pub fn new() -> (r: StrMap<V>)
        ensures
            r.wf(),
            r@ =~= Map::<Seq<char>, V>::empty(),
            r.entries@ == Seq::<(String, V)>::empty(),
    {
        StrMap { entries: Vec::new() }
    }

    pub fn len(&self) -> (n: usize)
        ensures
            n == self.entries@.len(),
    {
        self.entries.len()
    }

    /// Position of the entry that holds `k`, if any.
    pub fn index_of(&self, k: &String) -> (r: Option<usize>)
        ensures
            match r {
                Some(i) => i < self.entries@.len() && self.entries@[i as int].0@ == k@,
                None => forall|i: int|
                    0 <= i < self.entries@.len() ==> (#[trigger] self.entries@[i]).0@
                        != k@,
            },
    {
        let n = self.entries.len();
        let mut i: usize = 0;
        while i < n
            invariant
                i <= n,
                n == self.entries@.len(),
                forall|j: int| 0 <= j < i ==> (#[trigger] self.entries@[j]).0@ != k@,
            decreases n - i,
        {
            if self.entries[i].0 == *k {
                return Some(i);
            }
            i = i + 1;
        }
        None
    }

    pub fn contains_key(&self, k: &String) -> (r: bool)
        ensures
            r == self@.contains_key(k@),
    {
        proof {
            lemma_map_domain(self.entries@, k@);
        }
        match self.index_of(k) {
            Some(i) => {
                proof {
                    assert((i as int) < self.entries@.len() && self.entries@[i as int].0@ == k@);
                    assert(self@.contains_key(k@));
                }
                true
            },
            None => {
                proof {
                    assert(!self@.contains_key(k@));
                }
                false
            },
        }
    }

    pub fn get(&self, k: &String) -> (r: Option<&V>)
        requires
            self.wf(),
        ensures
            match r {
                Some(v) => self@.contains_key(k@) && *v == self@[k@],
                None => !self@.contains_key(k@),
            },
    {
        proof {
            lemma_map_domain(self.entries@, k@);
        }
        match self.index_of(k) {
            Some(i) => {
                proof {
                    lemma_map_index(self.entries@, i as int);
                }
                Some(&self.entries[i].1)
            },
            None => None,
        }
    }

    /// Insert with overwrite semantics: the last writer wins. A fresh key is
    /// appended at the end of the iteration order; an existing key keeps its
    /// position.
    pub fn insert(&mut self, k: String, v: V)
        requires
            old(self).wf(),
        ensures
            final(self).wf(),
            final(self)@ =~= old(self)@.insert(k@, v),
            ({
                let s = old(self).entries@;
                let t = final(self).entries@;
                if old(self)@.contains_key(k@) {
                    exists|i: int|
                        0 <= i < s.len() && (#[trigger] s[i]).0@ == k@ && t =~= s.update(
                            i,
                            (s[i].0, v),
                        )
                } else {
                    t =~= s.push((k, v))
                }
            }),
    {
        proof {
            lemma_map_domain(self.entries@, k@);
        }
        match self.index_of(&k) {
            Some(i) => {
                let ghost s = self.entries@;
                let ghost key = self.entries@[i as int].0;
                proof {
                    lemma_map_update(self.entries@, i as int, v);
                }
                self.entries[i].1 = v;
                proof {
                    assert(key@ == k@);
                    assert(self.entries@ =~= s.update(i as int, (s[i as int].0, v)));
                    assert forall|a: int, b: int|
                        0 <= a < b < self.entries@.len() implies (#[trigger] self.entries@[a]).0@
                        != (#[trigger] self.entries@[b]).0@ by {
                        assert(self.entries@[a].0 == s[a].0);
                        assert(self.entries@[b].0 == s[b].0);
                    }
                }
            },
            None => {
                let ghost s = self.entries@;
                let ghost kv = k@;
                self.entries.push((k, v));
                proof {
                    assert(self.entries@.drop_last() =~= s);
                    assert forall|a: int, b: int|
                        0 <= a < b < self.entries@.len() implies (#[trigger] self.entries@[a]).0@
                        != (#[trigger] self.entries@[b]).0@ by {
                        if b < s.len() {
                            assert(self.entries@[a] == s[a]);
                            assert(self.entries@[b] == s[b]);
                        } else {
                            assert(self.entries@[a] == s[a]);
                            assert(self.entries@[b].0@ == kv);
                        }
                    }
                }
            },
        }
    }

    /// Remove a key; reports whether it was present. The remaining entries
    /// keep their relative order.
    pub fn remove(&mut self, k: &String) -> (r: bool)
        requires
            old(self).wf(),
        ensures
            final(self).wf(),
            r == old(self)@.contains_key(k@),
            final(self)@ =~= old(self)@.remove(k@),
            ({
                let s = old(self).entries@;
                let t = final(self).entries@;
                if old(self)@.contains_key(k@) {
                    exists|i: int|
                        0 <= i < s.len() && (#[trigger] s[i]).0@ == k@ && t =~= s.remove(i)
                } else {
                    t =~= s
                }
            }),
    {
        proof {
            lemma_map_domain(self.entries@, k@);
        }
        match self.index_of(k) {
            Some(i) => {
                let ghost s = self.entries@;
                proof {
                    lemma_map_remove(self.entries@, i as int);
                }
                self.entries.remove(i);
                proof {
                    assert(self.entries@ =~= s.remove(i as int));
                    assert forall|a: int, b: int|
                        0 <= a < b < self.entries@.len() implies (#[trigger] self.entries@[a]).0@
                        != (#[trigger] self.entries@[b]).0@ by {
                        if a < i as int {
                            assert(self.entries@[a] == s[a]);
                        } else {
                            assert(self.entries@[a] == s[a + 1]);
                        }
                        if b < i as int {
                            assert(self.entries@[b] == s[b]);
                        } else {
                            assert(self.entries@[b] == s[b + 1]);
                        }
                    }
                }
                true
            },
            None => {
                proof {
                    assert(!self@.dom().contains(k@));
                    assert(self@.dom() =~= self@.dom().remove(k@));
                    assert(self@ =~= self@.remove(k@));
                }
                false
            },
        }
    }

    /// The key stored at entry position `i`.
    pub fn key_at(&self, i: usize) -> (r: &String)
        requires
            i < self.entries@.len(),
        ensures
            *r == self.entries@[i as int].0,
    {
        &self.entries[i].0
    }

    /// The value stored at entry position `i`.
    pub fn value_at(&self, i: usize) -> (r: &V)
        requires
            i < self.entries@.len(),
        ensures
            *r == self.entries@[i as int].1,
            self.wf() ==> self@.contains_key(self.entries@[i as int].0@) && *r == self@[
                self.entries@[i as int].0@
            ],
    {
        proof {
            if self.wf() {
                lemma_map_index(self.entries@, i as int);
            }
        }
        &self.entries[i].1
    }

    /// Mutable access to the value stored at entry position `i`; the key set
    /// and entry order are unchanged. Callers relate the new abstract map to
    /// the old one through `lemma_map_update`.
    pub fn value_at_mut(&mut self, i: usize) -> (r: &mut V)
        requires
            i < old(self).entries@.len(),
        ensures
            *r == old(self).entries@[i as int].1,
            final(self).entries@ =~= old(self).entries@.update(
                i as int,
                (old(self).entries@[i as int].0, *final(r)),
            ),
            old(self).wf() ==> final(self).wf(),
    {
        &mut self.entries[i].1
    }

    /// All keys, in entry order.
    pub fn keys(&self) -> (r: Vec<String>)
        ensures
            r@.len() == self.entries@.len(),
            forall|i: int| 0 <= i < r@.len() ==> r@[i]@ == self.entries@[i].0@,
    {
        let n = self.entries.len();
        let mut r: Vec<String> = Vec::new();
        let mut i: usize = 0;
        while i < n
            invariant
                i <= n,
                n == self.entries@.len(),
                r@.len() == i,
                forall|j: int| 0 <= j < i ==> r@[j]@ == self.entries@[j].0@,
            decreases n - i,
        {
            r.push(self.entries[i].0.clone());
            i = i + 1;
        }
        r
    }
}

} // verus!
