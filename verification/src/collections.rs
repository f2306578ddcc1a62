//! Collections used through the kernel and the runtime.
//!
//! `FrozenMap` is a fixed-length map with typed indices: its values can still be modified,
//! but its set of keys is fixed. `NameMap` maps names to values, such as the items that a
//! module exports.

use vstd::prelude::*;
use core::marker::PhantomData;

use crate::entity::EntityRef;

verus! {

// ————————————————————————————— Frozen Map —————————————————————————————— //

/// The first `n` values of `s` may each be mapped by `f` to a success.
pub open spec fn all_ok_before<V, U, E, F: Fn(&V) -> Result<U, E>>(f: F, s: Seq<V>, n: int) -> bool {
    exists|us: Seq<U>| #![trigger us.len()]
        us.len() == n && forall|j: int| 0 <= j < n ==> call_ensures(f, (&s[j],), Ok::<U, E>(#[trigger] us[j]))
}

/// A fixed length map with tagged indexes.
///
/// The values can still be modified, but the set of keys is fixed. A new FrozenMap can be
/// created either from a vector of values, or by mapping another FrozenMap.
pub struct FrozenMap<K, V> {
    elems: Vec<V>,
    unused: PhantomData<K>,
}

impl<K, V> View for FrozenMap<K, V> {
    type V = Seq<V>;

    closed spec fn view(&self) -> Seq<V> {
        self.elems@
    }
}

impl<K, V> FrozenMap<K, V> {
    /// Creates an empty map.
    pub fn empty() -> (r: Self)
        ensures
            r@ == Seq::<V>::empty(),
    {
        FrozenMap { elems: Vec::new(), unused: PhantomData }
    }

    /// Freezes a sequence of values: the value at position `i` gets the key `i`.
    pub fn freeze(elems: Vec<V>) -> (r: Self)
        ensures
            r@ == elems@,
    {
        FrozenMap { elems, unused: PhantomData }
    }

    /// Change the type of the index in place.
    pub fn reindex<Q>(self) -> (r: FrozenMap<Q, V>)
        ensures
            r@ == self@,
    {
        FrozenMap { elems: self.elems, unused: PhantomData }
    }

    /// Get the number of elements in the map.
    pub fn len(&self) -> (r: usize)
        ensures
            r == self@.len(),
    {
        self.elems.len()
    }

    /// All the values, in the order of their keys.
    pub fn values(&self) -> (r: &[V])
        ensures
            r@ == self@,
    {
        self.elems.as_slice()
    }

    /// The value at position `i`.
    pub fn at(&self, i: usize) -> (r: &V)
        requires
            i < self@.len(),
        ensures
            *r == self@[i as int],
    {
        &self.elems[i]
    }

    /// Replaces the value at position `i`.
    pub fn set(&mut self, i: usize, v: V)
        requires
            i < old(self)@.len(),
        ensures
            final(self)@ == old(self)@.update(i as int, v),
    {
        self.elems.set(i, v);
    }
}

impl<K: EntityRef, V> FrozenMap<K, V> {
    /// Builds a new map whose value at each key is `f` applied to the value at that key.
    pub fn map<F, U>(&self, f: F) -> (r: FrozenMap<K, U>)
        where
            F: Fn(&V) -> U,
        requires
            forall|i: int| 0 <= i < self@.len() ==> call_requires(f, (&self@[i],)),
        ensures
            r@.len() == self@.len(),
            forall|i: int| 0 <= i < self@.len() ==> call_ensures(f, (&self@[i],), #[trigger] r@[i]),
    {
        let mut elems: Vec<U> = Vec::with_capacity(self.elems.len());
        let mut i: usize = 0;
        while i < self.elems.len()
            invariant
                i <= self@.len(),
                self@ == self.elems@,
                elems@.len() == i,
                forall|j: int| 0 <= j < self@.len() ==> call_requires(f, (&self@[j],)),
                forall|j: int| 0 <= j < i ==> call_ensures(f, (&self@[j],), #[trigger] elems@[j]),
            decreases self@.len() - i,
        {
            let u = f(&self.elems[i]);
            elems.push(u);
            i = i + 1;
        }
        FrozenMap { elems, unused: PhantomData }
    }

    /// Builds a new map whose value at each key `k` is `f(k, v)`, where `v` is the value at `k`.
    pub fn map_enumerate<F, U>(&self, f: F) -> (r: FrozenMap<K, U>)
        where
            F: Fn(K, &V) -> U,
        requires
            self@.len() <= u32::MAX,
            forall|i: int|
                0 <= i < self@.len() ==> call_requires(f, (K::at_pos(i as nat), &self@[i])),
        ensures
            r@.len() == self@.len(),
            forall|i: int|
                0 <= i < self@.len() ==> call_ensures(f, (K::at_pos(i as nat), &self@[i]), #[trigger] r@[i]),
    {
        let mut elems: Vec<U> = Vec::with_capacity(self.elems.len());
        let mut i: usize = 0;
        while i < self.elems.len()
            invariant
                i <= self@.len(),
                self@.len() <= u32::MAX,
                self@ == self.elems@,
                elems@.len() == i,
                forall|j: int|
                    0 <= j < self@.len() ==> call_requires(f, (K::at_pos(j as nat), &self@[j])),
                forall|j: int|
                    0 <= j < i ==> call_ensures(f, (K::at_pos(j as nat), &self@[j]), #[trigger] elems@[j]),
            decreases self@.len() - i,
        {
            let k = K::new(i);
            let u = f(k, &self.elems[i]);
            elems.push(u);
            i = i + 1;
        }
        FrozenMap { elems, unused: PhantomData }
    }

    /// Builds a new map by applying a fallible `f` to each value, in the order of the keys.
    ///
    /// Stops at the first error, which is returned.
    pub fn try_map<F, U, E>(&self, f: F) -> (r: Result<FrozenMap<K, U>, E>)
        where
            F: Fn(&V) -> Result<U, E>,
        requires
            forall|i: int| 0 <= i < self@.len() ==> call_requires(f, (&self@[i],)),
        ensures
            match r {
                Ok(m) => m@.len() == self@.len() && forall|i: int|
                    0 <= i < self@.len() ==> call_ensures(f, (&self@[i],), Ok::<U, E>(#[trigger] m@[i])),
                Err(e) => exists|i: int| #![trigger self@[i]]
                    0 <= i < self@.len() && call_ensures(f, (&self@[i],), Err::<U, E>(e))
                    && all_ok_before(f, self@, i),
            },
    {
        let mut elems: Vec<U> = Vec::with_capacity(self.elems.len());
        let mut i: usize = 0;
        while i < self.elems.len()
            invariant
                i <= self@.len(),
                self@ == self.elems@,
                elems@.len() == i,
                forall|j: int| 0 <= j < self@.len() ==> call_requires(f, (&self@[j],)),
                forall|j: int|
                    0 <= j < i ==> call_ensures(f, (&self@[j],), Ok::<U, E>(#[trigger] elems@[j])),
            decreases self@.len() - i,
        {
            match f(&self.elems[i]) {
                Ok(u) => {
                    elems.push(u);
                },
                Err(e) => {
                    assert(call_ensures(f, (&self@[i as int],), Err::<U, E>(e)));
                    assert(elems@.len() == i);
                    assert(all_ok_before(f, self@, i as int));
                    return Err(e);
                },
            }
            i = i + 1;
        }
        Ok(FrozenMap { elems, unused: PhantomData })
    }

    /// Get the element at `k` if it exists.
    pub fn get(&self, k: K) -> (r: Option<&V>)
        ensures
            r == (if k.pos() < self@.len() { Some(&self@[k.pos() as int]) } else { None }),
    {
        let i = k.index();
        if i < self.elems.len() {
            Some(&self.elems[i])
        } else {
            None
        }
    }

    /// The element at `k`, for writing, if it exists.
    pub fn get_mut(&mut self, k: K) -> (r: Option<&mut V>)
        ensures
            k.pos() < old(self)@.len() ==> (r matches Some(v) && *v == old(self)@[k.pos() as int]
                && final(self)@ == old(self)@.update(k.pos() as int, *final(v))),
            k.pos() >= old(self)@.len() ==> r is None && final(self)@ == old(self)@,
    {
        let i = k.index();
        if i < self.elems.len() {
            Some(&mut self.elems[i])
        } else {
            None
        }
    }

    /// The element at `k`, which must exist.
    pub fn index(&self, k: K) -> (r: &V)
        requires
            k.pos() < self@.len(),
        ensures
            *r == self@[k.pos() as int],
    {
        &self.elems[k.index()]
    }
}

// —————————————————————————————— Name Map ——————————————————————————————— //

spec fn seq_has<V>(s: Seq<(String, V)>, name: Seq<char>) -> bool {
    exists|i: int| 0 <= i < s.len() && s[i].0@ == name
}

spec fn seq_lookup<V>(s: Seq<(String, V)>, name: Seq<char>) -> V {
    s[choose|i: int| 0 <= i < s.len() && s[i].0@ == name].1
}

spec fn seq_distinct<V>(s: Seq<(String, V)>) -> bool {
    forall|p: int, q: int| 0 <= p < q < s.len() ==> s[p].0@ != s[q].0@
}

spec fn seq_view<V>(s: Seq<(String, V)>) -> Map<Seq<char>, V> {
    Map::new(|k: Seq<char>| seq_has(s, k), |k: Seq<char>| seq_lookup(s, k))
}

/// In a sequence without repeated names, the entry of a name is at its only position.
proof fn lemma_lookup_at<V>(s: Seq<(String, V)>, i: int)
    requires
        seq_distinct(s),
        0 <= i < s.len(),
    ensures
        seq_has(s, s[i].0@),
        seq_lookup(s, s[i].0@) == s[i].1,
{
    let k = s[i].0@;
    assert(seq_has(s, k));
    let a = choose|a: int| 0 <= a < s.len() && s[a].0@ == k;
    if a < i {
        assert(s[a].0@ != s[i].0@);
    } else if i < a {
        assert(s[i].0@ != s[a].0@);
    }
}

/// Replacing or appending the entry of one name changes the map at that name only.
proof fn lemma_insert_view<V>(old_s: Seq<(String, V)>, new_s: Seq<(String, V)>, k: Seq<char>, value: V, i: int)
    requires
        seq_distinct(old_s),
        seq_distinct(new_s),
        0 <= i < new_s.len(),
        new_s[i].0@ == k,
        new_s[i].1 == value,
        new_s.len() == old_s.len() || (new_s.len() == old_s.len() + 1 && i == old_s.len()),
        i < old_s.len() ==> old_s[i].0@ == k,
        forall|j: int| 0 <= j < old_s.len() && j != i ==> new_s[j] == old_s[j],
    ensures
        seq_view(new_s) == seq_view(old_s).insert(k, value),
{
    let m1 = seq_view(new_s);
    let m2 = seq_view(old_s).insert(k, value);
    assert forall|k2: Seq<char>| #[trigger] m1.contains_key(k2) == m2.contains_key(k2) by {
        if k2 != k {
            if seq_has(new_s, k2) {
                let a = choose|a: int| 0 <= a < new_s.len() && new_s[a].0@ == k2;
                assert(old_s[a].0@ == k2);
            }
            if seq_has(old_s, k2) {
                let a = choose|a: int| 0 <= a < old_s.len() && old_s[a].0@ == k2;
                assert(new_s[a].0@ == k2);
            }
        } else {
            assert(seq_has(new_s, k));
        }
    }
    assert forall|k2: Seq<char>| m1.contains_key(k2) implies #[trigger] m1[k2] == m2[k2] by {
        if k2 == k {
            lemma_lookup_at(new_s, i);
        } else {
            let a = choose|a: int| 0 <= a < new_s.len() && new_s[a].0@ == k2;
            lemma_lookup_at(new_s, a);
            assert(old_s[a] == new_s[a]);
            lemma_lookup_at(old_s, a);
        }
    }
    assert(m1 =~= m2);
}

/// A map from names to values, in which each name occurs at most once.
pub struct NameMap<V> {
    entries: Vec<(String, V)>,
}

impl<V> NameMap<V> {
    /// No name occurs twice.
    #[verifier::type_invariant]
    closed spec fn distinct_names(self) -> bool {
        seq_distinct(self.entries@)
    }

    /// The number of names.
    pub closed spec fn size(self) -> nat {
        self.entries@.len()
    }

    /// The name of the entry at position `i`.
    pub closed spec fn name_at(self, i: int) -> Seq<char> {
        self.entries@[i].0@
    }

    /// Every name of the map is that of one of its entries.
    pub proof fn lemma_names_cover(&self)
        ensures
            forall|k: Seq<char>| #[trigger] self@.contains_key(k) ==> exists|i: int| 0 <= i < self.size() && #[trigger] self.name_at(i) == k,
    {
        assert forall|k: Seq<char>| #[trigger] self@.contains_key(k) implies exists|i: int| 0 <= i < self.size() && #[trigger] self.name_at(i) == k by {
            let i = choose|i: int| 0 <= i < self.entries@.len() && self.entries@[i].0@ == k;
            assert(self.name_at(i) == k);
        }
    }
}

impl<V> View for NameMap<V> {
    type V = Map<Seq<char>, V>;

    closed spec fn view(&self) -> Map<Seq<char>, V> {
        seq_view(self.entries@)
    }
}

impl<V: Copy> NameMap<V> {
    /// Creates an empty map.
    pub fn new() -> (r: Self)
        ensures
            r@ == Map::<Seq<char>, V>::empty(),
            r.size() == 0,
    {
        let r = NameMap { entries: Vec::new() };
        assert(r@ =~= Map::<Seq<char>, V>::empty());
        r
    }

    /// The number of names in the map.
    pub fn len(&self) -> (r: usize)
        ensures
            r == self.size(),
            self.size() == self@.dom().len(),
    {
        proof {
            use_type_invariant(self);
            self.lemma_dom_len();
        }
        self.entries.len()
    }

    proof fn lemma_dom_len(&self)
        requires
            self.distinct_names(),
        ensures
            self.size() == self@.dom().len(),
            self@.dom().finite(),
        decreases self.entries@.len(),
    {
        let keys = self.entries@.map_values(|e: (String, V)| e.0@);
        assert(keys.no_duplicates());
        keys.unique_seq_to_set();
        assert(self@.dom() =~= keys.to_set()) by {
            assert forall|k: Seq<char>| self@.dom().contains(k) implies keys.to_set().contains(k) by {
                let i = choose|i: int| 0 <= i < self.entries@.len() && self.entries@[i].0@ == k;
                assert(keys[i] == k);
            }
            assert forall|k: Seq<char>| keys.to_set().contains(k) implies self@.dom().contains(k) by {
                let i = choose|i: int| 0 <= i < keys.len() && keys[i] == k;
                assert(self.entries@[i].0@ == k);
            }
        }
    }

    /// The name and value of the entry at position `i`.
    pub fn entry(&self, i: usize) -> (r: (&String, V))
        requires
            i < self.size(),
        ensures
            r.0@ == self.name_at(i as int),
            self@.contains_key(r.0@),
            self@[r.0@] == r.1,
    {
        proof {
            use_type_invariant(self);
        }
        let e = &self.entries[i];
        proof {
            lemma_lookup_at(self.entries@, i as int);
        }
        (&e.0, e.1)
    }

    /// Returns the value under `name`, if any.
    pub fn get(&self, name: &str) -> (r: Option<V>)
        ensures
            r == (if self@.contains_key(name@) { Some(self@[name@]) } else { None }),
    {
        proof {
            use_type_invariant(self);
        }
        let key = name.to_owned();
        let mut i: usize = 0;
        while i < self.entries.len()
            invariant
                i <= self.entries@.len(),
                key@ == name@,
                seq_distinct(self.entries@),
                forall|j: int| 0 <= j < i ==> self.entries@[j].0@ != name@,
            decreases self.entries@.len() - i,
        {
            if self.entries[i].0 == key {
                proof {
                    lemma_lookup_at(self.entries@, i as int);
                }
                return Some(self.entries[i].1);
            }
            i = i + 1;
        }
        None
    }

    /// Inserts `value` under `name`, replacing the previous value under `name` if any.
    pub fn insert(&mut self, name: String, value: V)
        ensures
            final(self)@ == old(self)@.insert(name@, value),
            final(self).size() == old(self).size() + (if old(self)@.contains_key(name@) { 0int } else { 1int }),
    {
        proof {
            use_type_invariant(&*self);
        }
        let ghost old_entries = self.entries@;
        let ghost k = name@;
        let mut i: usize = 0;
        while i < self.entries.len()
            invariant
                i <= self.entries@.len(),
                self.entries@ == old_entries,
                old(self).entries@ == old_entries,
                seq_distinct(old_entries),
                k == name@,
                forall|j: int| 0 <= j < i ==> self.entries@[j].0@ != name@,
            decreases self.entries@.len() - i,
        {
            if self.entries[i].0 == name {
                let mut entries: Vec<(String, V)> = Vec::new();
                core::mem::swap(&mut entries, &mut self.entries);
                entries.set(i, (name, value));
                proof {
                    assert forall|p: int, q: int| 0 <= p < q < entries@.len() implies
                        entries@[p].0@ != entries@[q].0@ by {
                        assert(old_entries[p].0@ != old_entries[q].0@);
                    }
                    assert(seq_has(old_entries, k));
                }
                self.entries = entries;
                proof {
                    lemma_insert_view(old_entries, self.entries@, k, value, i as int);
                    assert((*old(self))@.contains_key(k));
                }
                return;
            }
            i = i + 1;
        }
        let mut entries: Vec<(String, V)> = Vec::new();
        core::mem::swap(&mut entries, &mut self.entries);
        entries.push((name, value));
        proof {
            assert forall|p: int, q: int| 0 <= p < q < entries@.len() implies
                entries@[p].0@ != entries@[q].0@ by {
                if q < old_entries.len() {
                    assert(old_entries[p].0@ != old_entries[q].0@);
                }
            }
            assert(!seq_has(old_entries, k));
        }
        self.entries = entries;
        proof {
            lemma_insert_view(old_entries, self.entries@, k, value, old_entries.len() as int);
        }
    }

    /// A copy of the map.
    pub fn duplicate(&self) -> (r: Self)
        ensures
            r@ == self@,
            r.size() == self.size(),
    {
        proof {
            use_type_invariant(self);
        }
        let mut entries: Vec<(String, V)> = Vec::new();
        let mut i: usize = 0;
        while i < self.entries.len()
            invariant
                i <= self.entries@.len(),
                entries@.len() == i,
                forall|j: int| 0 <= j < i ==> (#[trigger] entries@[j]).0@ == self.entries@[j].0@
                    && entries@[j].1 == self.entries@[j].1,
            decreases self.entries@.len() - i,
        {
            let e = &self.entries[i];
            entries.push((e.0.clone(), e.1));
            i = i + 1;
        }
        proof {
            assert forall|p: int, q: int| 0 <= p < q < entries@.len() implies
                entries@[p].0@ != entries@[q].0@ by {
                assert(self.entries@[p].0@ != self.entries@[q].0@);
            }
            let m1 = seq_view(entries@);
            let m2 = seq_view(self.entries@);
            assert forall|k: Seq<char>| #[trigger] m1.contains_key(k) == m2.contains_key(k) by {
                if seq_has(entries@, k) {
                    let a = choose|a: int| 0 <= a < entries@.len() && entries@[a].0@ == k;
                    assert(self.entries@[a].0@ == k);
                }
                if seq_has(self.entries@, k) {
                    let a = choose|a: int| 0 <= a < self.entries@.len() && self.entries@[a].0@ == k;
                    assert(entries@[a].0@ == k);
                }
            }
            assert forall|k: Seq<char>| m1.contains_key(k) implies #[trigger] m1[k] == m2[k] by {
                let a = choose|a: int| 0 <= a < entries@.len() && entries@[a].0@ == k;
                lemma_lookup_at(entries@, a);
                lemma_lookup_at(self.entries@, a);
            }
            assert(m1 =~= m2);
        }
        NameMap { entries }
    }
}

} // verus!
