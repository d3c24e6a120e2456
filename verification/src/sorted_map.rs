//! A map from names to values, kept in the order of its keys. The order is
//! part of what it is for: a task's environment is expanded key by key, and
//! a task file is checked and listed name by name.

use vstd::prelude::*;
use crate::text::chars_of;

verus! {

/// Whether `a` comes before `b`: the lexicographic order by code point.
pub open spec fn before(a: Seq<char>, b: Seq<char>) -> bool
    decreases a.len(),
{
    if b.len() == 0 {
        false
    } else if a.len() == 0 {
        true
    } else if a[0] != b[0] {
        a[0] < b[0]
    } else {
        before(a.drop_first(), b.drop_first())
    }
}

/// Whether each key comes before the keys after it.
pub open spec fn ascending(keys: Seq<Seq<char>>) -> bool {
    forall|i: int, j: int| 0 <= i < j < keys.len() ==> before(#[trigger] keys[i], #[trigger] keys[j])
}

/// Nothing comes before itself.
pub proof fn lemma_before_irreflexive(a: Seq<char>)
    ensures
        !before(a, a),
    decreases a.len(),
{
    if a.len() > 0 {
        lemma_before_irreflexive(a.drop_first());
    }
}

/// What comes before something that comes before a third, comes before the
/// third.
pub proof fn lemma_before_transitive(a: Seq<char>, b: Seq<char>, c: Seq<char>)
    requires
        before(a, b),
        before(b, c),
    ensures
        before(a, c),
    decreases a.len(),
{
    if a.len() > 0 && a[0] == b[0] && b[0] == c[0] {
        lemma_before_transitive(a.drop_first(), b.drop_first(), c.drop_first());
    }
}

/// Of two different texts one comes before the other.
pub proof fn lemma_before_total(a: Seq<char>, b: Seq<char>)
    ensures
        a == b || before(a, b) || before(b, a),
    decreases a.len(),
{
    if a.len() == 0 || b.len() == 0 {
        if a.len() == 0 && b.len() == 0 {
            assert(a =~= b);
        }
    } else if a[0] == b[0] {
        lemma_before_total(a.drop_first(), b.drop_first());
        if a.drop_first() == b.drop_first() {
            assert(a =~= seq![a[0]] + a.drop_first());
            assert(b =~= seq![b[0]] + b.drop_first());
        }
    }
}

/// Ascending keys hold no key twice.
pub proof fn lemma_ascending_distinct(keys: Seq<Seq<char>>)
    requires
        ascending(keys),
    ensures
        keys.no_duplicates(),
{
    assert forall|i: int, j: int| 0 <= i < keys.len() && 0 <= j < keys.len() && i != j implies keys[i]
        != keys[j] by {
        lemma_before_irreflexive(keys[i]);
        if i < j {
            assert(before(keys[i], keys[j]));
        } else {
            assert(before(keys[j], keys[i]));
        }
    }
}

/// Whether `a` comes before `b`.
pub fn comes_before(a: &str, b: &str) -> (r: bool)
    ensures
        r == before(a@, b@),
{
    let x = chars_of(a);
    let y = chars_of(b);
    let mut i: usize = 0;
    assert(x@.skip(0) == x@ && y@.skip(0) == y@);
    while i < x.len() && i < y.len()
        invariant
            x@ == a@,
            y@ == b@,
            i <= x.len(),
            i <= y.len(),
            before(x@, y@) == before(x@.skip(i as int), y@.skip(i as int)),
        decreases x.len() - i,
    {
        if x[i] != y[i] {
            assert(x@.skip(i as int)[0] == x@[i as int]);
            assert(y@.skip(i as int)[0] == y@[i as int]);
            return x[i] < y[i];
        }
        assert(x@.skip(i as int).drop_first() == x@.skip(i + 1));
        assert(y@.skip(i as int).drop_first() == y@.skip(i + 1));
        i += 1;
    }
    i < y.len()
}

/// A map keyed by name, whose entries stand in ascending order of their keys.
#[derive(Debug, Default)]
pub struct SortedMap<V> {
    entries: Vec<(String, V)>,
}

impl<V> View for SortedMap<V> {
    type V = Map<Seq<char>, V>;

    open spec fn view(&self) -> Map<Seq<char>, V> {
        Map::new(
            |k: Seq<char>| self.keys().contains(k),
            |k: Seq<char>| self.values()[self.keys().index_of(k)],
        )
    }
}

impl<V> SortedMap<V> {
    spec fn keys_of(entries: Seq<(String, V)>) -> Seq<Seq<char>> {
        Seq::new(entries.len(), |i: int| entries[i].0@)
    }

    spec fn values_of(entries: Seq<(String, V)>) -> Seq<V> {
        Seq::new(entries.len(), |i: int| entries[i].1)
    }

    /// The keys, in the order of the entries.
    pub closed spec fn keys(&self) -> Seq<Seq<char>> {
        Self::keys_of(self.entries@)
    }

    /// The values, in the order of the entries.
    pub closed spec fn values(&self) -> Seq<V> {
        Self::values_of(self.entries@)
    }

    #[verifier::type_invariant]
    closed spec fn ordered(&self) -> bool {
        ascending(self.keys())
    }

    /// What every map holds: one value for each key, keys ascending.
    pub open spec fn sound(&self) -> bool {
        &&& self.keys().len() == self.values().len()
        &&& ascending(self.keys())
        &&& self.keys().no_duplicates()
        &&& forall|i: int|
            0 <= i < self.keys().len() ==> self@.contains_key(#[trigger] self.keys()[i])
                && self@[self.keys()[i]] == self.values()[i]
        &&& forall|k: Seq<char>| self@.contains_key(k) <==> self.keys().contains(k)
    }

    proof fn lemma_sound(&self)
        requires
            ascending(self.keys()),
        ensures
            self.sound(),
    {
        let keys = self.keys();
        lemma_ascending_distinct(keys);
        assert forall|i: int| 0 <= i < keys.len() implies self@.contains_key(#[trigger] keys[i])
            && self@[keys[i]] == self.values()[i] by {
            assert(keys.contains(keys[i]));
            let j = keys.index_of(keys[i]);
            assert(0 <= j < keys.len() && keys[j] == keys[i]);
        }
    }

    /// The map that binds nothing.
    pub fn new() -> (m: Self)
        ensures
            m@ == Map::<Seq<char>, V>::empty(),
            m.keys().len() == 0,
            m.sound(),
    {
        let m = SortedMap { entries: Vec::new() };
        proof {
            m.lemma_sound();
            assert(m@ =~= Map::<Seq<char>, V>::empty());
        }
        m
    }

    /// How many keys are bound.
    pub fn len(&self) -> (n: usize)
        ensures
            n == self.keys().len(),
            self.sound(),
    {
        proof {
            use_type_invariant(self);
            self.lemma_sound();
        }
        self.entries.len()
    }

    /// Whether no key is bound.
    pub fn is_empty(&self) -> (r: bool)
        ensures
            r == (self.keys().len() == 0),
            r == (self@ == Map::<Seq<char>, V>::empty()),
            self.sound(),
    {
        proof {
            use_type_invariant(self);
            self.lemma_sound();
            if self.keys().len() == 0 {
                assert(self@ =~= Map::<Seq<char>, V>::empty());
            } else {
                assert(self@.contains_key(self.keys()[0]));
            }
        }
        self.entries.len() == 0
    }

    /// The key of the entry at `i`.
    pub fn key_at(&self, i: usize) -> (k: &String)
        requires
            i < self.keys().len(),
        ensures
            k@ == self.keys()[i as int],
            self.sound(),
    {
        proof {
            use_type_invariant(self);
            self.lemma_sound();
        }
        &self.entries[i].0
    }

    /// The value of the entry at `i`.
    pub fn value_at(&self, i: usize) -> (v: &V)
        requires
            i < self.keys().len(),
        ensures
            *v == self.values()[i as int],
            self.sound(),
    {
        proof {
            use_type_invariant(self);
            self.lemma_sound();
        }
        &self.entries[i].1
    }

    /// The index of the entry with the key `key`.
    pub fn position(&self, key: &str) -> (r: Option<usize>)
        ensures
            self.sound(),
            match r {
                Some(i) => i < self.keys().len() && self.keys()[i as int] == key@,
                None => !self.keys().contains(key@),
            },
    {
        proof {
            use_type_invariant(self);
            self.lemma_sound();
        }
        let mut i: usize = 0;
        while i < self.entries.len()
            invariant
                i <= self.entries.len(),
                self.entries@.len() == self.keys().len(),
                self.sound(),
                forall|j: int| 0 <= j < i ==> self.keys()[j] != key@,
            decreases self.entries.len() - i,
        {
            if crate::text::str_eq(self.entries[i].0.as_str(), key) {
                return Some(i);
            }
            i += 1;
        }
        None
    }

    /// Whether `key` is bound.
    pub fn contains_key(&self, key: &str) -> (r: bool)
        ensures
            r == self@.contains_key(key@),
            self.sound(),
    {
        self.position(key).is_some()
    }

    /// What `key` is bound to, if it is bound.
    pub fn get(&self, key: &str) -> (r: Option<&V>)
        ensures
            self.sound(),
            match r {
                Some(v) => self@.contains_key(key@) && *v == self@[key@],
                None => !self@.contains_key(key@),
            },
    {
        match self.position(key) {
            Some(i) => Some(self.value_at(i)),
            None => None,
        }
    }

    /// Binds `key` to `value`, in place of what it was bound to.
    pub fn insert(&mut self, key: String, value: V)
        ensures
            final(self)@ == old(self)@.insert(key@, value),
            final(self).sound(),
    {
        proof {
            use_type_invariant(&*self);
            self.lemma_sound();
        }
        let ghost before_keys = self.keys();
        let ghost before_values = self.values();
        let ghost before_view = self@;
        let mut entries: Vec<(String, V)> = Vec::new();
        std::mem::swap(&mut entries, &mut self.entries);
        let mut i: usize = 0;
        while i < entries.len() && comes_before(entries[i].0.as_str(), key.as_str())
            invariant
                i <= entries.len(),
                entries@.len() == before_keys.len(),
                forall|j: int| 0 <= j < entries@.len() ==> entries@[j].0@ == before_keys[j],
                forall|j: int| 0 <= j < i ==> before(before_keys[j], key@),
            decreases entries.len() - i,
        {
            i += 1;
        }
        let ghost k = key@;
        if i < entries.len() && crate::text::str_eq(entries[i].0.as_str(), key.as_str()) {
            entries.remove(i);
            entries.insert(i, (key, value));
            assert(Self::keys_of(entries@) =~= before_keys);
            self.entries = entries;
            proof {
                assert(self.keys() =~= before_keys);
                assert(self.values() =~= before_values.update(i as int, value));
                self.lemma_sound();
                assert(self@ =~= before_view.insert(k, value)) by {
                    assert(before_keys[i as int] == k);
                    assert forall|q: Seq<char>| self@.contains_key(q) <==> before_view.insert(
                        k,
                        value,
                    ).contains_key(q) by {
                        assert(before_keys.contains(k));
                    }
                    assert forall|q: Seq<char>| self@.contains_key(q) implies #[trigger] self@[q]
                        == before_view.insert(k, value)[q] by {
                        let j = choose|j: int| 0 <= j < before_keys.len() && before_keys[j] == q;
                        assert(self@[self.keys()[j]] == self.values()[j]);
                        assert(before_view[before_keys[j]] == before_values[j]);
                    }
                }
            }
        } else {
            proof {
                if i < entries.len() {
                    lemma_before_total(before_keys[i as int], k);
                }
            }
            entries.insert(i, (key, value));
            proof {
                let now = Self::keys_of(entries@);
                assert(now =~= before_keys.insert(i as int, k));
                assert(ascending(now)) by {
                    assert forall|a: int, b: int| 0 <= a < b < now.len() implies before(
                        #[trigger] now[a],
                        #[trigger] now[b],
                    ) by {
                        if a == i {
                            if b - 1 > i {
                                assert(before(before_keys[i as int], before_keys[b - 1]));
                                lemma_before_transitive(k, before_keys[i as int], before_keys[b - 1]);
                            }
                        } else if b == i {
                        } else {
                            let a0 = if a < i { a } else { a - 1 };
                            let b0 = if b < i { b } else { b - 1 };
                            assert(before(before_keys[a0], before_keys[b0]));
                        }
                    }
                }
            }
            self.entries = entries;
            proof {
                assert(self.keys() =~= before_keys.insert(i as int, k));
                assert(self.values() =~= before_values.insert(i as int, value));
                self.lemma_sound();
                assert(self@ =~= before_view.insert(k, value)) by {
                    assert forall|q: Seq<char>| self@.contains_key(q) <==> before_view.insert(
                        k,
                        value,
                    ).contains_key(q) by {
                        if before_keys.contains(q) {
                            let j = before_keys.index_of(q);
                            let j1 = if j < i { j } else { j + 1 };
                            assert(self.keys()[j1] == q);
                        }
                        if self.keys().contains(q) && q != k {
                            let j = self.keys().index_of(q);
                            let j0 = if j < i { j } else { j - 1 };
                            assert(before_keys[j0] == q);
                        }
                        assert(self.keys()[i as int] == k);
                    }
                    assert forall|q: Seq<char>| self@.contains_key(q) implies #[trigger] self@[q]
                        == before_view.insert(k, value)[q] by {
                        let j = choose|j: int| 0 <= j < self.keys().len() && self.keys()[j] == q;
                        assert(self@[self.keys()[j]] == self.values()[j]);
                        if q != k {
                            let j0 = if j < i { j } else { j - 1 };
                            assert(before_keys[j0] == q);
                            assert(before_view[before_keys[j0]] == before_values[j0]);
                        } else {
                            assert(self.keys()[i as int] == k);
                        }
                    }
                }
            }
        }
    }
}

impl<V: Clone> Clone for SortedMap<V> {
    /// A map with the same keys, each bound to a clone of its value.
    fn clone(&self) -> (out: Self)
        ensures
            out.keys() == self.keys(),
            out.values().len() == self.values().len(),
            forall|i: int|
                0 <= i < self.values().len() ==> cloned(
                    #[trigger] self.values()[i],
                    out.values()[i],
                ),
            out.sound(),
    {
        proof {
            use_type_invariant(self);
        }
        let mut entries: Vec<(String, V)> = Vec::new();
        let mut i: usize = 0;
        while i < self.entries.len()
            invariant
                i <= self.entries.len(),
                entries@.len() == i,
                forall|j: int| 0 <= j < i ==> entries@[j].0@ == self.entries@[j].0@,
                forall|j: int| 0 <= j < i ==> cloned(self.entries@[j].1, #[trigger] entries@[j].1),
            decreases self.entries.len() - i,
        {
            let key = self.entries[i].0.clone();
            let value = self.entries[i].1.clone();
            entries.push((key, value));
            i += 1;
        }
        assert(Self::keys_of(entries@) =~= self.keys());
        let out = SortedMap { entries };
        proof {
            out.lemma_sound();
        }
        out
    }
}

impl SortedMap<String> {
    /// A copy of the map.
    pub fn duplicate(&self) -> (out: Self)
        ensures
            out@ == self@,
            out.keys() == self.keys(),
            out.values() == self.values(),
            out.sound(),
    {
        proof {
            use_type_invariant(self);
        }
        let mut entries: Vec<(String, String)> = Vec::new();
        let mut i: usize = 0;
        while i < self.entries.len()
            invariant
                i <= self.entries.len(),
                entries@.len() == i,
                forall|j: int| 0 <= j < i ==> #[trigger] entries@[j] == self.entries@[j],
            decreases self.entries.len() - i,
        {
            let key = self.entries[i].0.clone();
            let value = self.entries[i].1.clone();
            entries.push((key, value));
            i += 1;
        }
        assert(entries@ =~= self.entries@);
        let out = SortedMap { entries };
        proof {
            out.lemma_sound();
        }
        out
    }
}

} // verus!
