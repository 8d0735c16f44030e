//! A small map with keys that are compared by their view, kept as a list of
//! bindings in which no key occurs twice.

use vstd::prelude::*;

verus! {

/// A key of a [`KeyedMap`]: two keys are the same key when their views are equal.
pub trait Key: View + Sized {
    /// Whether `self` and `other` are the same key.
    fn same(&self, other: &Self) -> (r: bool)
        ensures
            r == (self@ == other@),
    ;
}

impl Key for String {
    fn same(&self, other: &Self) -> (r: bool) {
        *self == *other
    }
}

/// No key occurs twice among the bindings.
pub open spec fn distinct_keys<K: Key, V>(s: Seq<(K, V)>) -> bool {
    forall|i: int, j: int| 0 <= i < j < s.len() ==> (#[trigger] s[i]).0@ != (#[trigger] s[j]).0@
}

/// Some binding of `s` has the key `k`.
pub open spec fn binds<K: Key, V>(s: Seq<(K, V)>, k: K::V) -> bool {
    exists|i: int| 0 <= i < s.len() && (#[trigger] s[i]).0@ == k
}

/// The place of a binding of `k` in `s`.
pub open spec fn place_of<K: Key, V>(s: Seq<(K, V)>, k: K::V) -> int {
    choose|i: int| 0 <= i < s.len() && (#[trigger] s[i]).0@ == k
}

/// The map that a list of bindings stands for.
pub open spec fn bound_map<K: Key, V>(s: Seq<(K, V)>) -> Map<K::V, V> {
    Map::new(|k: K::V| binds(s, k), |k: K::V| s[place_of(s, k)].1)
}

/// Among bindings with distinct keys, the key at place `i` is bound there and
/// nowhere else, to the value at that place.
pub proof fn lemma_place_of<K: Key, V>(s: Seq<(K, V)>, i: int)
    requires
        distinct_keys(s),
        0 <= i < s.len(),
    ensures
        binds(s, s[i].0@),
        place_of(s, s[i].0@) == i,
        bound_map(s).contains_key(s[i].0@),
        bound_map(s)[s[i].0@] == s[i].1,
{
    let k = s[i].0@;
    assert(binds(s, k));
    let j = place_of(s, k);
    assert(0 <= j < s.len() && s[j].0@ == k);
    if j != i {
        if j < i {
            assert(s[j].0@ != s[i].0@);
        } else {
            assert(s[i].0@ != s[j].0@);
        }
    }
}

/// A map from keys to values. Its view is the mathematical map of its bindings.
#[derive(Debug)]
pub struct KeyedMap<K: Key, V> {
    entries: Vec<(K, V)>,
}

impl<K: Key, V> View for KeyedMap<K, V> {
    type V = Map<K::V, V>;

    open spec fn view(&self) -> Map<K::V, V> {
        bound_map(self.bindings())
    }
}

impl<K: Key, V> KeyedMap<K, V> {
    #[verifier::type_invariant]
    spec fn well_formed(self) -> bool {
        distinct_keys(self.entries@)
    }

    /// The bindings, in the order in which the map holds them.
    pub closed spec fn bindings(&self) -> Seq<(K, V)> {
        self.entries@
    }

    /// The empty map.
    pub fn new() -> (m: Self)
        ensures
            m@ == Map::<K::V, V>::empty(),
            m.bindings().len() == 0,
    {
        let m = KeyedMap { entries: Vec::new() };
        assert(m@ =~= Map::<K::V, V>::empty());
        m
    }

    fn position(&self, key: &K) -> (r: Option<usize>)
        ensures
            distinct_keys(self.bindings()),
            match r {
                Some(i) => i < self.bindings().len() && self.bindings()[i as int].0@ == key@,
                None => !binds(self.bindings(), key@),
            },
    {
        proof {
            use_type_invariant(self);
        }
        let mut i: usize = 0;
        while i < self.entries.len()
            invariant
                i <= self.entries@.len(),
                distinct_keys(self.entries@),
                forall|j: int| 0 <= j < i ==> (#[trigger] self.entries@[j]).0@ != key@,
            decreases self.entries@.len() - i,
        {
            if self.entries[i].0.same(key) {
                return Some(i);
            }
            i += 1;
        }
        None
    }

    /// Whether `key` is bound.
    pub fn contains_key(&self, key: &K) -> (r: bool)
        ensures
            r == self@.contains_key(key@),
    {
        self.position(key).is_some()
    }

    /// The value bound to `key`, if any.
    pub fn get(&self, key: &K) -> (r: Option<&V>)
        ensures
            r == (if self@.contains_key(key@) {
                Some(&self@[key@])
            } else {
                None
            }),
    {
        match self.position(key) {
            Some(i) => {
                proof {
                    lemma_place_of(self.bindings(), i as int);
                }
                Some(&self.entries[i].1)
            },
            None => None,
        }
    }

    /// Binds `key` to `value` and returns the value that `key` was bound to before.
    pub fn insert(&mut self, key: K, value: V) -> (r: Option<V>)
        ensures
            final(self)@ == old(self)@.insert(key@, value),
            r == (if old(self)@.contains_key(key@) {
                Some(old(self)@[key@])
            } else {
                None
            }),
    {
        let found = self.position(&key);
        let ghost before = self.entries@;
        let mut entries: Vec<(K, V)> = Vec::new();
        core::mem::swap(&mut self.entries, &mut entries);
        let r = match found {
            Some(i) => {
                proof {
                    lemma_place_of(before, i as int);
                    lemma_remove_place(before, i as int);
                }
                let (_, v) = entries.remove(i);
                Some(v)
            },
            None => None,
        };
        let ghost between = entries@;
        entries.push((key, value));
        proof {
            lemma_push(between, (key, value));
            assert(bound_map(between).insert(key@, value) =~= bound_map(before).insert(key@, value));
        }
        core::mem::swap(&mut self.entries, &mut entries);
        r
    }

    /// The number of bindings.
    pub fn len(&self) -> (n: usize)
        ensures
            n == self.bindings().len(),
            self@.dom().finite(),
            n == self@.len(),
    {
        proof {
            use_type_invariant(self);
            lemma_bound_map_len(self.entries@);
        }
        self.entries.len()
    }

    /// The bindings themselves, for a caller that walks the map.
    pub fn entries(&self) -> (r: &Vec<(K, V)>)
        ensures
            r@ == self.bindings(),
            distinct_keys(r@),
            self@ == bound_map(r@),
    {
        proof {
            use_type_invariant(self);
        }
        &self.entries
    }

    /// Gives up the map for its bindings.
    pub fn into_entries(self) -> (r: Vec<(K, V)>)
        ensures
            r@ == self.bindings(),
            distinct_keys(r@),
            self@ == bound_map(r@),
    {
        proof {
            use_type_invariant(&self);
        }
        self.entries
    }

    /// Adds every binding of `other`; where both maps bind a key, the value of `other` stays.
    pub fn extend(&mut self, other: KeyedMap<K, V>)
        ensures
            final(self)@ == old(self)@.union_prefer_right(other@),
    {
        let ghost start = self@;
        let ghost all = other.bindings();
        let mut rest = other.into_entries();
        assert(all.subrange(all.len() as int, all.len() as int) =~= Seq::<(K, V)>::empty());
        assert(bound_map(Seq::<(K, V)>::empty()) =~= Map::<K::V, V>::empty());
        assert(start.union_prefer_right(Map::<K::V, V>::empty()) =~= start);
        while rest.len() > 0
            invariant
                distinct_keys(all),
                rest@.len() <= all.len(),
                rest@ == all.subrange(0, rest@.len() as int),
                self@ == start.union_prefer_right(
                    bound_map(all.subrange(rest@.len() as int, all.len() as int)),
                ),
            decreases rest@.len(),
        {
            let ghost m = rest@.len() as int;
            let ghost held = self@;
            let e = rest.pop().unwrap();
            assert(e == all[m - 1]);
            let ghost k0 = e.0@;
            let ghost v0 = e.1;
            self.insert(e.0, e.1);
            proof {
                assert(rest@ =~= all.subrange(0, m - 1));
                lemma_prepend(all, m - 1);
                assert(held.insert(k0, v0) =~= start.union_prefer_right(
                    bound_map(all.subrange(m, all.len() as int)).insert(k0, v0),
                ));
            }
        }
        assert(all.subrange(0, all.len() as int) =~= all);
    }

    /// Removes the binding of `key` and returns the value that it was bound to.
    pub fn remove(&mut self, key: &K) -> (r: Option<V>)
        ensures
            final(self)@ == old(self)@.remove(key@),
            r == (if old(self)@.contains_key(key@) {
                Some(old(self)@[key@])
            } else {
                None
            }),
    {
        let ghost before = self.entries@;
        match self.position(key) {
            Some(i) => {
                proof {
                    lemma_place_of(before, i as int);
                    lemma_remove_place(before, i as int);
                }
                let mut entries: Vec<(K, V)> = Vec::new();
                core::mem::swap(&mut self.entries, &mut entries);
                let (_, v) = entries.remove(i);
                core::mem::swap(&mut self.entries, &mut entries);
                Some(v)
            },
            None => {
                assert(bound_map(before).remove(key@) =~= bound_map(before));
                None
            },
        }
    }
}

/// Taking the binding at place `i` out removes its key from the map and leaves the rest.
pub proof fn lemma_remove_place<K: Key, V>(s: Seq<(K, V)>, i: int)
    requires
        distinct_keys(s),
        0 <= i < s.len(),
    ensures
        distinct_keys(s.remove(i)),
        !binds(s.remove(i), s[i].0@),
        bound_map(s.remove(i)) == bound_map(s).remove(s[i].0@),
{
    let t = s.remove(i);
    let k = s[i].0@;
    assert forall|a: int, b: int| 0 <= a < b < t.len() implies (#[trigger] t[a]).0@ != (#[trigger] t[b]).0@ by {
        let a2 = if a < i { a } else { a + 1 };
        let b2 = if b < i { b } else { b + 1 };
        assert(t[a] == s[a2] && t[b] == s[b2]);
    }
    assert forall|a: int| 0 <= a < t.len() implies (#[trigger] t[a]).0@ != k by {
        let a2 = if a < i { a } else { a + 1 };
        assert(t[a] == s[a2]);
        if a2 < i {
            assert(s[a2].0@ != s[i].0@);
        } else {
            assert(s[i].0@ != s[a2].0@);
        }
    }
    assert forall|x: K::V| #[trigger] binds(t, x) <==> (binds(s, x) && x != k) by {
        if binds(t, x) {
            let a = place_of(t, x);
            let a2 = if a < i { a } else { a + 1 };
            assert(t[a] == s[a2]);
            assert(s[a2].0@ == x);
        }
        if binds(s, x) && x != k {
            let b = place_of(s, x);
            let b2 = if b < i { b } else { b - 1 };
            assert(t[b2] == s[b]);
            assert(t[b2].0@ == x);
        }
    }
    assert forall|x: K::V| binds(t, x) implies #[trigger] bound_map(t)[x] == bound_map(s)[x] by {
        let a = place_of(t, x);
        let a2 = if a < i { a } else { a + 1 };
        assert(t[a] == s[a2]);
        lemma_place_of(s, a2);
    }
    assert(bound_map(t) =~= bound_map(s).remove(k));
}

/// Adding a binding of a fresh key at the end inserts it into the map.
pub proof fn lemma_push<K: Key, V>(s: Seq<(K, V)>, e: (K, V))
    requires
        distinct_keys(s),
        !binds(s, e.0@),
    ensures
        distinct_keys(s.push(e)),
        bound_map(s.push(e)) == bound_map(s).insert(e.0@, e.1),
{
    let t = s.push(e);
    assert forall|a: int, b: int| 0 <= a < b < t.len() implies (#[trigger] t[a]).0@ != (#[trigger] t[b]).0@ by {
        assert(t[a] == s[a]);
        if b < s.len() {
            assert(t[b] == s[b]);
        } else {
            assert(t[b] == e);
            assert(s[a].0@ != e.0@);
        }
    }
    assert forall|x: K::V| #[trigger] binds(t, x) <==> (binds(s, x) || x == e.0@) by {
        if binds(t, x) {
            let a = place_of(t, x);
            if a < s.len() {
                assert(t[a] == s[a]);
                assert(s[a].0@ == x);
            }
        }
        if binds(s, x) {
            let b = place_of(s, x);
            assert(t[b] == s[b]);
            assert(t[b].0@ == x);
        }
        if x == e.0@ {
            assert(t[s.len() as int] == e);
            assert(t[s.len() as int].0@ == x);
        }
    }
    assert forall|x: K::V| binds(t, x) implies #[trigger] bound_map(t)[x] == bound_map(s).insert(e.0@, e.1)[x] by {
        let a = place_of(t, x);
        lemma_place_of(t, a);
        if a < s.len() {
            assert(t[a] == s[a]);
            lemma_place_of(s, a);
        } else {
            assert(t[a] == e);
        }
    }
    assert(bound_map(t) =~= bound_map(s).insert(e.0@, e.1));
}

/// A list of bindings with distinct keys stands for a map of as many keys.
pub proof fn lemma_bound_map_len<K: Key, V>(s: Seq<(K, V)>)
    requires
        distinct_keys(s),
    ensures
        bound_map(s).dom().finite(),
        bound_map(s).len() == s.len(),
    decreases s.len(),
{
    if s.len() == 0 {
        assert(bound_map(s) =~= Map::<K::V, V>::empty());
    } else {
        let p = s.drop_last();
        let e = s.last();
        assert forall|i: int, j: int| 0 <= i < j < p.len() implies (#[trigger] p[i]).0@ != (
        #[trigger] p[j]).0@ by {
            assert(p[i] == s[i] && p[j] == s[j]);
        }
        lemma_bound_map_len(p);
        if binds(p, e.0@) {
            let i = place_of(p, e.0@);
            assert(p[i] == s[i]);
            assert(s[i].0@ != s[s.len() - 1].0@);
        }
        lemma_push(p, e);
        assert(p.push(e) =~= s);
    }
}

/// The bindings from place `m` on stand for the map of those after `m` with the binding at `m` inserted.
pub proof fn lemma_prepend<K: Key, V>(s: Seq<(K, V)>, m: int)
    requires
        distinct_keys(s),
        0 <= m < s.len(),
    ensures
        bound_map(s.subrange(m, s.len() as int)) == bound_map(
            s.subrange(m + 1, s.len() as int),
        ).insert(s[m].0@, s[m].1),
{
    let n = s.len() as int;
    let a = s.subrange(m, n);
    let b = s.subrange(m + 1, n);
    assert forall|i: int, j: int| 0 <= i < j < a.len() implies (#[trigger] a[i]).0@ != (
    #[trigger] a[j]).0@ by {
        assert(a[i] == s[m + i] && a[j] == s[m + j]);
    }
    assert forall|i: int, j: int| 0 <= i < j < b.len() implies (#[trigger] b[i]).0@ != (
    #[trigger] b[j]).0@ by {
        assert(b[i] == s[m + 1 + i] && b[j] == s[m + 1 + j]);
    }
    let target = bound_map(b).insert(s[m].0@, s[m].1);
    assert forall|k: K::V| #[trigger] binds(a, k) <==> target.contains_key(k) by {
        if binds(a, k) {
            let i = place_of(a, k);
            if i > 0 {
                assert(b[i - 1] == a[i]);
                assert(b[i - 1].0@ == k);
            }
        }
        if binds(b, k) {
            let i = place_of(b, k);
            assert(a[i + 1] == b[i]);
            assert(a[i + 1].0@ == k);
        }
        if k == s[m].0@ {
            assert(a[0].0@ == k);
        }
    }
    assert forall|k: K::V| binds(a, k) implies #[trigger] bound_map(a)[k] == target[k] by {
        let i = place_of(a, k);
        lemma_place_of(a, i);
        if i > 0 {
            assert(b[i - 1] == a[i]);
            lemma_place_of(b, i - 1);
            assert(s[m].0@ != s[m + i].0@);
        }
    }
    assert(bound_map(a) =~= target);
}

} // verus!
