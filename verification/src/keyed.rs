//! A map from keys to values kept as a vector of entries, each key at most once.
//!
//! Its model is a finite `Map` from the keys' views to the values.

use vstd::prelude::*;

use crate::text::same_text;

verus! {

/// A key: compared and copied by its view.
pub trait Key: Sized {
    type KV;

    spec fn key_view(&self) -> Self::KV;

    fn same_key(&self, other: &Self) -> (r: bool)
        ensures
            r == (self.key_view() == other.key_view()),
    ;

    fn copy_key(&self) -> (r: Self)
        ensures
            r.key_view() == self.key_view(),
    ;
}

impl Key for String {
    type KV = Seq<char>;

    open spec fn key_view(&self) -> Seq<char> {
        self@
    }

    fn same_key(&self, other: &Self) -> (r: bool) {
        same_text(self.as_str(), other.as_str())
    }

    fn copy_key(&self) -> (r: Self) {
        self.clone()
    }
}

impl Key for u32 {
    type KV = u32;

    open spec fn key_view(&self) -> u32 {
        *self
    }

    fn same_key(&self, other: &Self) -> (r: bool) {
        *self == *other
    }

    fn copy_key(&self) -> (r: Self) {
        *self
    }
}

impl Key for u128 {
    type KV = u128;

    open spec fn key_view(&self) -> u128 {
        *self
    }

    fn same_key(&self, other: &Self) -> (r: bool) {
        *self == *other
    }

    fn copy_key(&self) -> (r: Self) {
        *self
    }
}

impl Key for (String, String) {
    type KV = (Seq<char>, Seq<char>);

    open spec fn key_view(&self) -> (Seq<char>, Seq<char>) {
        (self.0@, self.1@)
    }

    fn same_key(&self, other: &Self) -> (r: bool) {
        same_text(self.0.as_str(), other.0.as_str()) && same_text(self.1.as_str(), other.1.as_str())
    }

    fn copy_key(&self) -> (r: Self) {
        (self.0.clone(), self.1.clone())
    }
}

/// A finite map with keys of type `K`, stored as a vector of distinct-key entries.
pub struct KeyedMap<K: Key, V> {
    entries: Vec<(K, V)>,
    model: Ghost<Map<K::KV, V>>,
}

impl<K: Key, V> View for KeyedMap<K, V> {
    type V = Map<K::KV, V>;

    closed spec fn view(&self) -> Map<K::KV, V> {
        self.model@
    }
}

impl<K: Key, V> KeyedMap<K, V> {
    /// The keys' views in storage order.
    pub closed spec fn key_seq(&self) -> Seq<K::KV> {
        self.entries@.map_values(|e: (K, V)| e.0.key_view())
    }

    /// The map is well formed: its entries and its model agree.
    pub closed spec fn wf(&self) -> bool {
        &&& forall|i: int, j: int|
            0 <= i < j < self.entries@.len() ==> self.entries@[i].0.key_view()
                != self.entries@[j].0.key_view()
        &&& forall|i: int|
            0 <= i < self.entries@.len() ==> #[trigger] self.model@.contains_key(
                self.entries@[i].0.key_view(),
            ) && self.model@[self.entries@[i].0.key_view()] == self.entries@[i].1
        &&& forall|k: K::KV|
            #[trigger] self.model@.contains_key(k) ==> exists|i: int|
                0 <= i < self.entries@.len() && self.entries@[i].0.key_view() == k
        &&& self.model@.dom().finite()
        &&& self.model@.dom().len() == self.entries@.len()
    }

    /// A well-formed map has finitely many keys.
    pub proof fn lemma_finite(&self)
        requires
            self.wf(),
        ensures
            self@.dom().finite(),
    {
    }

    /// The keys in storage order are distinct and are exactly the map's keys.
    pub proof fn lemma_key_seq(&self)
        requires
            self.wf(),
        ensures
            self.key_seq().no_duplicates(),
            self.key_seq().len() == self@.len(),
            forall|k: K::KV| #[trigger] self@.contains_key(k) <==> self.key_seq().contains(k),
    {
        assert forall|k: K::KV| #[trigger] self@.contains_key(k) implies self.key_seq().contains(
            k,
        ) by {
            let i = choose|i: int|
                0 <= i < self.entries@.len() && self.entries@[i].0.key_view() == k;
            assert(self.key_seq()[i] == k);
        }
    }

    pub fn new() -> (m: Self)
        ensures
            m.wf(),
            m@ == Map::<K::KV, V>::empty(),
    {
        KeyedMap { entries: Vec::new(), model: Ghost(Map::empty()) }
    }

    fn find(&self, k: &K) -> (r: Option<usize>)
        requires
            self.wf(),
        ensures
            match r {
                Some(i) => i < self.entries@.len() && self.entries@[i as int].0.key_view()
                    == k.key_view(),
                None => !self@.contains_key(k.key_view()),
            },
    {
        let mut i: usize = 0;
        while i < self.entries.len()
            invariant
                self.wf(),
                i <= self.entries@.len(),
                forall|j: int| 0 <= j < i ==> self.entries@[j].0.key_view() != k.key_view(),
            decreases self.entries@.len() - i,
        {
            if self.entries[i].0.same_key(k) {
                return Some(i);
            }
            i = i + 1;
        }
        None
    }

    /// Whether `k` has a value.
    pub fn contains_key(&self, k: &K) -> (r: bool)
        requires
            self.wf(),
        ensures
            r == self@.contains_key(k.key_view()),
    {
        match self.find(k) {
            Some(_) => true,
            None => false,
        }
    }

    /// The value of `k`, if it has one.
    pub fn get(&self, k: &K) -> (r: Option<&V>)
        requires
            self.wf(),
        ensures
            match r {
                Some(v) => self@.contains_key(k.key_view()) && *v == self@[k.key_view()],
                None => !self@.contains_key(k.key_view()),
            },
    {
        match self.find(k) {
            Some(i) => {
                assert(self.model@.contains_key(self.entries@[i as int].0.key_view()));
                Some(&self.entries[i].1)
            },
            None => None,
        }
    }

    /// The number of keys.
    pub fn len(&self) -> (r: usize)
        requires
            self.wf(),
        ensures
            r == self@.len(),
    {
        self.entries.len()
    }

    /// Gives `k` the value `v`, replacing any value it had.
    pub fn insert(&mut self, k: K, v: V)
        requires
            old(self).wf(),
        ensures
            final(self).wf(),
            final(self)@ == old(self)@.insert(k.key_view(), v),
    {
        let ghost kv = k.key_view();
        let ghost old_model = self.model@;
        match self.find(&k) {
            Some(i) => {
                let ghost old_entries = self.entries@;
                self.entries.set(i, (k, v));
                self.model = Ghost(old_model.insert(kv, v));
                assert(old_model.dom().insert(kv) =~= old_model.dom());
                assert forall|j: int| 0 <= j < self.entries@.len() implies #[trigger] self.entries@[j].0.key_view()
                    == old_entries[j].0.key_view() by {}
                assert forall|a: int| 0 <= a < self.entries@.len() implies #[trigger] self.model@.contains_key(
                    self.entries@[a].0.key_view(),
                ) && self.model@[self.entries@[a].0.key_view()] == self.entries@[a].1 by {
                    if a != i {
                        assert(old_model.contains_key(old_entries[a].0.key_view()));
                        assert(self.entries@[a] == old_entries[a]);
                    }
                }
                assert forall|k2: K::KV| #[trigger] self.model@.contains_key(k2) implies exists|
                    j: int,
                |
                    0 <= j < self.entries@.len() && self.entries@[j].0.key_view() == k2 by {
                    if k2 != kv {
                        let j = choose|j: int|
                            0 <= j < old_entries.len() && old_entries[j].0.key_view() == k2;
                        assert(self.entries@[j] == old_entries[j]);
                    } else {
                        assert(self.entries@[i as int].0.key_view() == k2);
                    }
                }
            },
            None => {
                let ghost old_entries = self.entries@;
                self.entries.push((k, v));
                self.model = Ghost(old_model.insert(kv, v));
                assert forall|j: int| 0 <= j < old_entries.len() implies #[trigger] old_entries[j].0.key_view()
                    != kv by {
                    assert(old_model.contains_key(old_entries[j].0.key_view()));
                }
                assert forall|a: int| 0 <= a < self.entries@.len() implies #[trigger] self.model@.contains_key(
                    self.entries@[a].0.key_view(),
                ) && self.model@[self.entries@[a].0.key_view()] == self.entries@[a].1 by {
                    if a < old_entries.len() {
                        assert(old_model.contains_key(old_entries[a].0.key_view()));
                        assert(self.entries@[a] == old_entries[a]);
                    }
                }
                assert forall|k2: K::KV| #[trigger] self.model@.contains_key(k2) implies exists|
                    j: int,
                |
                    0 <= j < self.entries@.len() && self.entries@[j].0.key_view() == k2 by {
                    if k2 != kv {
                        let j = choose|j: int|
                            0 <= j < old_entries.len() && old_entries[j].0.key_view() == k2;
                        assert(self.entries@[j] == old_entries[j]);
                    } else {
                        assert(self.entries@[old_entries.len() as int].0.key_view() == k2);
                    }
                }
            },
        }
    }

    /// Removes the value of `k`, returning it if there was one.
    pub fn remove(&mut self, k: &K) -> (r: Option<V>)
        requires
            old(self).wf(),
        ensures
            final(self).wf(),
            final(self)@ == old(self)@.remove(k.key_view()),
            match r {
                Some(v) => old(self)@.contains_key(k.key_view()) && v == old(self)@[k.key_view()],
                None => !old(self)@.contains_key(k.key_view()),
            },
    {
        let ghost kv = k.key_view();
        let ghost old_model = self.model@;
        match self.find(k) {
            Some(i) => {
                let ghost old_entries = self.entries@;
                let (_, v) = self.entries.remove(i);
                self.model = Ghost(old_model.remove(kv));
                assert forall|k2: K::KV| #[trigger] self.model@.contains_key(k2) implies exists|
                    j: int,
                |
                    0 <= j < self.entries@.len() && self.entries@[j].0.key_view() == k2 by {
                    let j = choose|j: int|
                        0 <= j < old_entries.len() && old_entries[j].0.key_view() == k2;
                    if j < i {
                        assert(self.entries@[j] == old_entries[j]);
                    } else {
                        assert(j != i);
                        assert(self.entries@[j - 1] == old_entries[j]);
                    }
                }
                assert forall|a: int| 0 <= a < self.entries@.len() implies #[trigger] self.model@.contains_key(
                    self.entries@[a].0.key_view(),
                ) && self.model@[self.entries@[a].0.key_view()] == self.entries@[a].1 by {
                    if a < i {
                        assert(self.entries@[a] == old_entries[a]);
                    } else {
                        assert(self.entries@[a] == old_entries[a + 1]);
                    }
                }
                Some(v)
            },
            None => {
                assert(old_model.remove(kv) =~= old_model);
                None
            },
        }
    }

    /// The number of stored entries, which is also the number of keys.
    pub fn size(&self) -> (r: usize)
        requires
            self.wf(),
        ensures
            r == self.key_seq().len(),
    {
        self.entries.len()
    }

    /// The key stored at position `i`.
    pub fn key_at(&self, i: usize) -> (r: &K)
        requires
            self.wf(),
            i < self.key_seq().len(),
        ensures
            r.key_view() == self.key_seq()[i as int],
    {
        &self.entries[i].0
    }

    /// The value stored at position `i`, which is the value of the key there.
    pub fn value_at(&self, i: usize) -> (r: &V)
        requires
            self.wf(),
            i < self.key_seq().len(),
        ensures
            self@.contains_key(self.key_seq()[i as int]),
            *r == self@[self.key_seq()[i as int]],
    {
        assert(self.key_seq()[i as int] == self.entries@[i as int].0.key_view());
        assert(self.model@.contains_key(self.entries@[i as int].0.key_view()));
        &self.entries[i].1
    }
}

/// Filtering keeps exactly the elements that pass, and keeps them distinct.
pub proof fn lemma_filter_keeps<A>(s: Seq<A>, pred: spec_fn(A) -> bool)
    ensures
        forall|x: A| #[trigger] s.filter(pred).contains(x) <==> (s.contains(x) && pred(x)),
        s.no_duplicates() ==> s.filter(pred).no_duplicates(),
    decreases s.len(),
{
    reveal(Seq::filter);
    if s.len() > 0 {
        let p = s.drop_last();
        lemma_filter_keeps(p, pred);
        assert(s =~= p.push(s.last()));
        assert forall|x: A| #[trigger] s.contains(x) <==> (p.contains(x) || x == s.last()) by {
            if s.contains(x) {
                let i = choose|i: int| 0 <= i < s.len() && s[i] == x;
                if i < s.len() - 1 {
                    assert(p[i] == x);
                }
            }
            if p.contains(x) {
                let i = choose|i: int| 0 <= i < p.len() && p[i] == x;
                assert(s[i] == x);
            }
            if x == s.last() {
                assert(s[s.len() - 1] == x);
            }
        }
        let f = p.filter(pred);
        if pred(s.last()) {
            assert(s.filter(pred) == f.push(s.last()));
            assert forall|x: A| #[trigger] f.push(s.last()).contains(x) <==> (f.contains(x) || x
                == s.last()) by {
                if f.push(s.last()).contains(x) {
                    let i = choose|i: int| 0 <= i < f.len() + 1 && f.push(s.last())[i] == x;
                    if i < f.len() {
                        assert(f[i] == x);
                    }
                }
                if f.contains(x) {
                    let i = choose|i: int| 0 <= i < f.len() && f[i] == x;
                    assert(f.push(s.last())[i] == x);
                }
                if x == s.last() {
                    assert(f.push(s.last())[f.len() as int] == x);
                }
            }
            if s.no_duplicates() {
                assert(p.no_duplicates());
                assert(!p.contains(s.last())) by {
                    if p.contains(s.last()) {
                        let i = choose|i: int| 0 <= i < p.len() && p[i] == s.last();
                        assert(s[i] == s[s.len() - 1]);
                    }
                }
                assert(!f.contains(s.last()));
                assert forall|i: int, j: int|
                    0 <= i < j < f.push(s.last()).len() implies f.push(s.last())[i] != f.push(
                    s.last(),
                )[j] by {
                    if j == f.len() {
                        assert(f[i] != s.last()) by {
                            if f[i] == s.last() {
                                assert(f.contains(s.last()));
                            }
                        }
                    }
                }
            }
        } else {
            assert(s.filter(pred) == f);
            if s.no_duplicates() {
                assert(p.no_duplicates());
            }
        }
    }
}

} // verus!
