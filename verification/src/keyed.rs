//! A map with one value per key, kept in the order in which keys first came.
//!
//! The bridges hold a handful of names per view, so lookup is a linear scan.

use vstd::prelude::*;

use crate::strings::str_eq;

verus! {

/// A key whose equality is that of its view.
pub trait Key: View + Sized {
    /// Whether the two keys are the same.
    fn same_key(&self, other: &Self) -> (r: bool)
        ensures
            r == (self@ == other@),
    ;

    /// The same key again.
    fn copy_key(&self) -> (r: Self)
        ensures
            r@ == self@,
    ;
}

/// Something that a key of type `K` can be looked up by.
pub trait Query<K: View> {
    /// The key that is looked for.
    spec fn wanted(&self) -> K::V;

    /// Whether `key` is the one that is looked for.
    fn is_key(&self, key: &K) -> (r: bool)
        ensures
            r == (key@ == self.wanted()),
    ;
}

impl<K: Key> Query<K> for K {
    open spec fn wanted(&self) -> K::V {
        self@
    }

    fn is_key(&self, key: &K) -> (r: bool) {
        key.same_key(self)
    }
}

impl Query<String> for str {
    open spec fn wanted(&self) -> Seq<char> {
        self@
    }

    fn is_key(&self, key: &String) -> (r: bool) {
        str_eq(key.as_str(), self)
    }
}

impl Key for String {
    fn same_key(&self, other: &Self) -> (r: bool) {
        *self == *other
    }

    fn copy_key(&self) -> (r: Self) {
        self.clone()
    }
}

impl Key for u64 {
    fn same_key(&self, other: &Self) -> (r: bool) {
        *self == *other
    }

    fn copy_key(&self) -> (r: Self) {
        *self
    }
}

impl Key for i32 {
    fn same_key(&self, other: &Self) -> (r: bool) {
        *self == *other
    }

    fn copy_key(&self) -> (r: Self) {
        *self
    }
}

impl Key for bool {
    fn same_key(&self, other: &Self) -> (r: bool) {
        *self == *other
    }

    fn copy_key(&self) -> (r: Self) {
        *self
    }
}

impl Key for () {
    fn same_key(&self, other: &Self) -> (r: bool) {
        true
    }

    fn copy_key(&self) -> (r: Self) {
        ()
    }
}

impl Key for Vec<i32> {
    fn same_key(&self, other: &Self) -> (r: bool) {
        if self.len() != other.len() {
            return false;
        }
        let n: usize = self.len();
        let mut i: usize = 0;
        while i < n
            invariant
                i <= n,
                n == self@.len(),
                n == other@.len(),
                forall|j: int| 0 <= j < i ==> self@[j] == other@[j],
            decreases n - i,
        {
            if self[i] != other[i] {
                assert(self@[i as int] != other@[i as int]);
                return false;
            }
            i = i + 1;
        }
        assert(self@ =~= other@);
        true
    }

    fn copy_key(&self) -> (r: Self) {
        let mut r: Vec<i32> = Vec::new();
        let n: usize = self.len();
        let mut i: usize = 0;
        while i < n
            invariant
                i <= n,
                n == self@.len(),
                r@ == self@.take(i as int),
            decreases n - i,
        {
            r.push(self[i]);
            i = i + 1;
            assert(r@ =~= self@.take(i as int));
        }
        assert(self@.take(n as int) == self@);
        r
    }
}

impl<A: Key, B: Key> Key for (A, B) {
    fn same_key(&self, other: &Self) -> (r: bool) {
        self.0.same_key(&other.0) && self.1.same_key(&other.1)
    }

    fn copy_key(&self) -> (r: Self) {
        (self.0.copy_key(), self.1.copy_key())
    }
}

/// A map with its values by view.
pub open spec fn values_view<K, C: View>(m: Map<K, C>) -> Map<K, C::V> {
    m.map_values(|c: C| c@)
}

/// Whether some entry has the key `k`.
pub open spec fn has_key<K: View, V>(entries: Seq<(K, V)>, k: K::V) -> bool {
    exists|i: int| 0 <= i < entries.len() && (#[trigger] entries[i]).0@ == k
}

/// Position of the entry with key `k`.
pub open spec fn key_index<K: View, V>(entries: Seq<(K, V)>, k: K::V) -> int {
    choose|i: int| 0 <= i < entries.len() && (#[trigger] entries[i]).0@ == k
}

/// No key occurs twice.
pub open spec fn distinct_keys<K: View, V>(entries: Seq<(K, V)>) -> bool {
    forall|i: int, j: int|
        0 <= i < j < entries.len() ==> (#[trigger] entries[i]).0@ != (#[trigger] entries[j]).0@
}

/// No value occurs twice in a list.
pub open spec fn distinct<T: View>(list: Seq<T>) -> bool {
    forall|i: int, j: int|
        0 <= i < j < list.len() ==> (#[trigger] list[i])@ != (#[trigger] list[j])@
}

/// The map that a list of entries with distinct keys stands for.
pub open spec fn map_of<K: View, V>(entries: Seq<(K, V)>) -> Map<K::V, V> {
    Map::new(|k: K::V| has_key(entries, k), |k: K::V| entries[key_index(entries, k)].1)
}

/// The map holds each entry.
pub proof fn lemma_entry_in_map<K: View, V>(entries: Seq<(K, V)>, i: int)
    requires
        distinct_keys(entries),
        0 <= i < entries.len(),
    ensures
        map_of(entries).contains_key(entries[i].0@),
        map_of(entries)[entries[i].0@] == entries[i].1,
{
    let k = entries[i].0@;
    assert(has_key(entries, k));
    let j = key_index(entries, k);
    assert(0 <= j < entries.len() && entries[j].0@ == k);
    if i < j {
        assert(entries[i].0@ != entries[j].0@);
    } else if j < i {
        assert(entries[j].0@ != entries[i].0@);
    }
}

proof fn lemma_push<K: View, V>(entries: Seq<(K, V)>, k: K, v: V)
    requires
        distinct_keys(entries),
        !has_key(entries, k@),
    ensures
        distinct_keys(entries.push((k, v))),
        map_of(entries.push((k, v))) == map_of(entries).insert(k@, v),
{
    let next = entries.push((k, v));
    assert forall|i: int, j: int| 0 <= i < j < next.len() implies (#[trigger] next[i]).0@ != (
    #[trigger] next[j]).0@ by {
        assert(next[i] == entries[i]);
        if j < entries.len() {
            assert(next[j] == entries[j]);
        }
    }
    assert forall|x: K::V| has_key(next, x) == (has_key(entries, x) || x == k@) by {
        if has_key(entries, x) {
            let i = key_index(entries, x);
            assert(next[i] == entries[i]);
        }
        if x == k@ {
            assert(next[entries.len() as int].0@ == x);
        }
        if has_key(next, x) {
            let i = key_index(next, x);
            if i < entries.len() {
                assert(entries[i] == next[i]);
            }
        }
    }
    assert forall|x: K::V| has_key(next, x) implies #[trigger] map_of(next)[x] == map_of(entries).insert(
        k@,
        v,
    )[x] by {
        let i = key_index(next, x);
        lemma_entry_in_map(next, i);
        if i < entries.len() {
            assert(entries[i] == next[i]);
            assert(entries[i].0@ == x);
            lemma_entry_in_map(entries, i);
            assert(x != k@);
        }
    }
    assert(map_of(next) =~= map_of(entries).insert(k@, v));
}

/// The map has as many keys as the list has entries.
proof fn lemma_map_size<K: View, V>(entries: Seq<(K, V)>)
    requires
        distinct_keys(entries),
    ensures
        map_of(entries).dom().finite(),
        map_of(entries).dom().len() == entries.len(),
    decreases entries.len(),
{
    if entries.len() == 0 {
        assert(map_of(entries).dom() =~= Set::<K::V>::empty());
    } else {
        let front = entries.drop_last();
        let last = entries.last();
        assert forall|i: int, j: int| 0 <= i < j < front.len() implies (#[trigger] front[i]).0@ != (
        #[trigger] front[j]).0@ by {
            assert(entries[i].0@ != entries[j].0@);
        }
        if has_key(front, last.0@) {
            let i = key_index(front, last.0@);
            assert(entries[i].0@ != entries[entries.len() - 1].0@);
        }
        lemma_map_size(front);
        lemma_push(front, last.0, last.1);
        assert(front.push((last.0, last.1)) =~= entries);
        assert(map_of(entries).dom() =~= map_of(front).dom().insert(last.0@));
    }
}

proof fn lemma_update<K: View, V>(entries: Seq<(K, V)>, at: int, k: K, v: V)
    requires
        distinct_keys(entries),
        0 <= at < entries.len(),
        entries[at].0@ == k@,
    ensures
        distinct_keys(entries.update(at, (k, v))),
        map_of(entries.update(at, (k, v))) == map_of(entries).insert(k@, v),
{
    let next = entries.update(at, (k, v));
    assert(forall|i: int| 0 <= i < next.len() ==> (#[trigger] next[i]).0@ == entries[i].0@);
    assert forall|i: int, j: int| 0 <= i < j < next.len() implies (#[trigger] next[i]).0@ != (
    #[trigger] next[j]).0@ by {
        assert(entries[i].0@ != entries[j].0@);
    }
    assert forall|x: K::V| has_key(next, x) == has_key(entries, x) by {
        if has_key(entries, x) {
            let i = key_index(entries, x);
            assert(next[i].0@ == x);
        }
        if has_key(next, x) {
            let i = key_index(next, x);
            assert(entries[i].0@ == x);
        }
    }
    assert(has_key(entries, k@));
    assert forall|x: K::V| has_key(next, x) implies #[trigger] map_of(next)[x] == map_of(entries).insert(
        k@,
        v,
    )[x] by {
        let i = key_index(next, x);
        lemma_entry_in_map(next, i);
        lemma_entry_in_map(entries, i);
        if i != at && x == k@ {
            if i < at {
                assert(entries[i].0@ != entries[at].0@);
            } else {
                assert(entries[at].0@ != entries[i].0@);
            }
        }
    }
    assert(map_of(next) =~= map_of(entries).insert(k@, v));
}

proof fn lemma_remove<K: View, V>(entries: Seq<(K, V)>, at: int)
    requires
        distinct_keys(entries),
        0 <= at < entries.len(),
    ensures
        distinct_keys(entries.remove(at)),
        map_of(entries.remove(at)) == map_of(entries).remove(entries[at].0@),
{
    let next = entries.remove(at);
    let k = entries[at].0@;
    assert forall|i: int| 0 <= i < next.len() implies #[trigger] next[i] == entries[if i < at {
        i
    } else {
        i + 1
    }] by {}
    assert forall|i: int, j: int| 0 <= i < j < next.len() implies (#[trigger] next[i]).0@ != (
    #[trigger] next[j]).0@ by {
        let a = if i < at {
            i
        } else {
            i + 1
        };
        let b = if j < at {
            j
        } else {
            j + 1
        };
        assert(entries[a].0@ != entries[b].0@);
    }
    assert forall|x: K::V| has_key(next, x) == (has_key(entries, x) && x != k) by {
        if has_key(next, x) {
            let i = key_index(next, x);
            let a = if i < at {
                i
            } else {
                i + 1
            };
            assert(entries[a].0@ == x);
            if a < at {
                assert(entries[a].0@ != entries[at].0@);
            } else {
                assert(entries[at].0@ != entries[a].0@);
            }
        }
        if has_key(entries, x) && x != k {
            let i = key_index(entries, x);
            let a = if i < at {
                i
            } else {
                i - 1
            };
            assert(next[a].0@ == x);
        }
    }
    assert forall|x: K::V| has_key(next, x) implies #[trigger] map_of(next)[x] == map_of(
        entries,
    )[x] by {
        let i = key_index(next, x);
        lemma_entry_in_map(next, i);
        lemma_entry_in_map(
            entries,
            if i < at {
                i
            } else {
                i + 1
            },
        );
    }
    assert(map_of(next) =~= map_of(entries).remove(k));
}

/// A map from `K` to `V`.
pub struct KeyedMap<K: Key, V> {
    entries: Vec<(K, V)>,
}

impl<K: Key, V> View for KeyedMap<K, V> {
    type V = Map<K::V, V>;

    closed spec fn view(&self) -> Map<K::V, V> {
        map_of(self.entries@)
    }
}

impl<K: Key, V> Default for KeyedMap<K, V> {
    fn default() -> (m: Self)
        ensures
            m@ == Map::<K::V, V>::empty(),
            m.listed() == Seq::<(K, V)>::empty(),
    {
        KeyedMap::new()
    }
}

impl<K: Key, V> KeyedMap<K, V> {
    #[verifier::type_invariant]
    spec fn inv(self) -> bool {
        distinct_keys(self.entries@)
    }

    /// The entries in the order in which their keys first came.
    pub closed spec fn listed(&self) -> Seq<(K, V)> {
        self.entries@
    }

    /// The empty map.
    pub fn new() -> (m: Self)
        ensures
            m@ == Map::<K::V, V>::empty(),
            m.listed() == Seq::<(K, V)>::empty(),
    {
        let m = KeyedMap { entries: Vec::new() };
        assert(m@ =~= Map::<K::V, V>::empty());
        m
    }

    /// Number of keys. The list and the map hold the same, each key once.
    pub fn len(&self) -> (n: usize)
        ensures
            n == self.listed().len(),
            distinct_keys(self.listed()),
            self@ == map_of(self.listed()),
            self@.dom().finite(),
            n == self@.dom().len(),
    {
        proof {
            use_type_invariant(self);
            lemma_map_size(self.entries@);
        }
        self.entries.len()
    }

    /// Whether the map holds nothing.
    pub fn is_empty(&self) -> (r: bool)
        ensures
            r == (self@ == Map::<K::V, V>::empty()),
            r == (self.listed().len() == 0),
    {
        proof {
            use_type_invariant(self);
            if self.entries@.len() == 0 {
                assert(self@ =~= Map::<K::V, V>::empty());
            } else {
                lemma_entry_in_map(self.entries@, 0);
                assert(self@.contains_key(self.entries@[0].0@));
            }
        }
        self.entries.len() == 0
    }

    /// Key and value at position `i` of the list.
    pub fn at(&self, i: usize) -> (r: &(K, V))
        requires
            i < self.listed().len(),
        ensures
            *r == self.listed()[i as int],
            self@.contains_key(r.0@),
            self@[r.0@] == r.1,
    {
        proof {
            use_type_invariant(self);
            lemma_entry_in_map(self.entries@, i as int);
        }
        &self.entries[i]
    }

    fn find<Q: Query<K> + ?Sized>(&self, q: &Q) -> (r: Option<usize>)
        ensures
            match r {
                Some(i) => i < self.entries@.len() && self.entries@[i as int].0@ == q.wanted(),
                None => !has_key(self.entries@, q.wanted()),
            },
    {
        let n: usize = self.entries.len();
        let mut i: usize = 0;
        while i < n
            invariant
                i <= n,
                n == self.entries@.len(),
                forall|j: int| 0 <= j < i ==> (#[trigger] self.entries@[j]).0@ != q.wanted(),
            decreases n - i,
        {
            if q.is_key(&self.entries[i].0) {
                return Some(i);
            }
            i = i + 1;
        }
        None
    }

    /// The value of a key.
    pub fn get<Q: Query<K> + ?Sized>(&self, q: &Q) -> (r: Option<&V>)
        ensures
            match r {
                Some(v) => self@.contains_key(q.wanted()) && *v == self@[q.wanted()],
                None => !self@.contains_key(q.wanted()),
            },
    {
        match self.find(q) {
            Some(i) => {
                proof {
                    use_type_invariant(self);
                    lemma_entry_in_map(self.entries@, i as int);
                }
                Some(&self.entries[i].1)
            },
            None => None,
        }
    }

    /// Whether a key has a value.
    pub fn contains_key<Q: Query<K> + ?Sized>(&self, q: &Q) -> (r: bool)
        ensures
            r == self@.contains_key(q.wanted()),
    {
        self.get(q).is_some()
    }

    /// Gives `k` the value `v`. A key that was there keeps its place; a new one
    /// comes last.
    pub fn insert(&mut self, k: K, v: V)
        ensures
            final(self)@ == old(self)@.insert(k@, v),
            if old(self)@.contains_key(k@) {
                &&& final(self).listed().len() == old(self).listed().len()
                &&& forall|i: int|
                    0 <= i < old(self).listed().len() ==> (#[trigger] final(self).listed()[i]).0@
                        == old(self).listed()[i].0@
            } else {
                final(self).listed() == old(self).listed().push((k, v))
            },
    {
        proof {
            use_type_invariant(&*self);
        }
        match self.find(&k) {
            Some(i) => {
                proof {
                    lemma_update(self.entries@, i as int, k, v);
                }
                let mut entries: Vec<(K, V)> = Vec::new();
                core::mem::swap(&mut entries, &mut self.entries);
                entries.set(i, (k, v));
                core::mem::swap(&mut entries, &mut self.entries);
            },
            None => {
                proof {
                    lemma_push(self.entries@, k, v);
                }
                let mut entries: Vec<(K, V)> = Vec::new();
                core::mem::swap(&mut entries, &mut self.entries);
                entries.push((k, v));
                core::mem::swap(&mut entries, &mut self.entries);
            },
        }
    }

    /// Takes a key out; its value comes back.
    pub fn remove<Q: Query<K> + ?Sized>(&mut self, q: &Q) -> (r: Option<V>)
        ensures
            final(self)@ == old(self)@.remove(q.wanted()),
            match r {
                Some(v) => old(self)@.contains_key(q.wanted()) && v == old(self)@[q.wanted()],
                None => !old(self)@.contains_key(q.wanted()),
            },
    {
        proof {
            use_type_invariant(&*self);
        }
        match self.find(q) {
            Some(i) => {
                proof {
                    lemma_entry_in_map(self.entries@, i as int);
                    lemma_remove(self.entries@, i as int);
                }
                let mut entries: Vec<(K, V)> = Vec::new();
                core::mem::swap(&mut entries, &mut self.entries);
                let (_, v) = entries.remove(i);
                core::mem::swap(&mut entries, &mut self.entries);
                Some(v)
            },
            None => {
                assert(self@ =~= old(self)@.remove(q.wanted()));
                None
            },
        }
    }

    /// Takes every key out.
    pub fn clear(&mut self)
        ensures
            final(self)@ == Map::<K::V, V>::empty(),
            final(self).listed() == Seq::<(K, V)>::empty(),
    {
        let mut entries: Vec<(K, V)> = Vec::new();
        core::mem::swap(&mut entries, &mut self.entries);
        assert(self@ =~= Map::<K::V, V>::empty());
    }

    /// Takes out every key that `keep` refuses; their values come back.
    pub(crate) fn retain<F: Fn(&K, &V) -> bool>(
        &mut self,
        keep: F,
        Ghost(p): Ghost<spec_fn(K::V) -> bool>,
    ) -> (gone: Vec<V>)
        requires
            forall|k: &K, v: &V| #[trigger] keep.requires((k, v)),
            forall|k: &K, v: &V, b: bool| #[trigger] keep.ensures((k, v), b) ==> b == p(k@),
        ensures
            final(self)@ == kept(old(self)@, p),
            forall|v: V|
                gone@.contains(v) <==> exists|k: K::V| #[trigger]
                    old(self)@.contains_key(k) && !p(k) && old(self)@[k] == v,
    {
        proof {
            use_type_invariant(&*self);
        }
        let ghost all = self.entries@;
        let mut entries: Vec<(K, V)> = Vec::new();
        core::mem::swap(&mut entries, &mut self.entries);
        let mut gone: Vec<V> = Vec::new();
        let mut i: usize = 0;
        while i < entries.len()
            invariant
                i <= entries@.len(),
                distinct_keys(entries@),
                forall|k: K::V| #[trigger]
                    map_of(entries@).contains_key(k) ==> map_of(all).contains_key(k) && map_of(
                        entries@,
                    )[k] == map_of(all)[k],
                forall|k: K::V| #[trigger]
                    map_of(all).contains_key(k) && p(k) ==> map_of(entries@).contains_key(k),
                forall|j: int| 0 <= j < i ==> p((#[trigger] entries@[j]).0@),
                forall|v: V|
                    gone@.contains(v) <==> exists|k: K::V| #[trigger]
                        map_of(all).contains_key(k) && !map_of(entries@).contains_key(k) && map_of(
                            all,
                        )[k] == v,
                forall|k: &K, v: &V| #[trigger] keep.requires((k, v)),
                forall|k: &K, v: &V, b: bool| #[trigger] keep.ensures((k, v), b) ==> b == p(k@),
            decreases entries@.len() - i,
        {
            if keep(&entries[i].0, &entries[i].1) {
                i = i + 1;
            } else {
                let ghost before = entries@;
                let ghost had = gone@;
                let ghost out = before[i as int];
                proof {
                    lemma_entry_in_map(before, i as int);
                    lemma_remove(before, i as int);
                }
                let (_, v) = entries.remove(i);
                gone.push(v);
                proof {
                    assert(!p(out.0@));
                    assert(map_of(entries@) == map_of(before).remove(out.0@));
                    assert(map_of(all).contains_key(out.0@));
                    assert(map_of(all)[out.0@] == out.1);
                    assert forall|v: V|
                        gone@.contains(v) <==> exists|k: K::V| #[trigger]
                            map_of(all).contains_key(k) && !map_of(entries@).contains_key(k)
                                && map_of(all)[k] == v by {
                        assert(gone@ == had.push(out.1));
                        if gone@.contains(v) {
                            if had.contains(v) {
                                let k = choose|k: K::V| #[trigger]
                                    map_of(all).contains_key(k) && !map_of(before).contains_key(k)
                                        && map_of(all)[k] == v;
                                assert(!map_of(entries@).contains_key(k));
                            } else {
                                assert(v == out.1);
                            }
                        }
                        if exists|k: K::V| #[trigger]
                            map_of(all).contains_key(k) && !map_of(entries@).contains_key(k)
                                && map_of(all)[k] == v {
                            let k = choose|k: K::V| #[trigger]
                                map_of(all).contains_key(k) && !map_of(entries@).contains_key(k)
                                    && map_of(all)[k] == v;
                            if k == out.0@ {
                                assert(gone@[had.len() as int] == v);
                            } else {
                                assert(!map_of(before).contains_key(k));
                                assert(had.contains(v));
                                let at = choose|at: int| 0 <= at < had.len() && had[at] == v;
                                assert(gone@[at] == v);
                            }
                        }
                    }
                    assert(forall|j: int| 0 <= j < i ==> entries@[j] == before[j]);
                }
            }
        }
        core::mem::swap(&mut entries, &mut self.entries);
        proof {
            let m = map_of(self.entries@);
            assert forall|k: K::V| #[trigger] m.contains_key(k) implies p(k) by {
                let j = key_index(self.entries@, k);
                assert(p(self.entries@[j].0@));
            }
            assert(self@ =~= kept(old(self)@, p));
            assert forall|v: V|
                gone@.contains(v) <==> exists|k: K::V| #[trigger]
                    old(self)@.contains_key(k) && !p(k) && old(self)@[k] == v by {
                if gone@.contains(v) {
                    let k = choose|k: K::V| #[trigger]
                        map_of(all).contains_key(k) && !m.contains_key(k) && map_of(all)[k] == v;
                    assert(old(self)@.contains_key(k) && !p(k) && old(self)@[k] == v);
                }
                if exists|k: K::V| #[trigger]
                    old(self)@.contains_key(k) && !p(k) && old(self)@[k] == v {
                    let k = choose|k: K::V| #[trigger]
                        old(self)@.contains_key(k) && !p(k) && old(self)@[k] == v;
                    assert(map_of(all).contains_key(k) && !m.contains_key(k) && map_of(all)[k] == v);
                }
            }
        }
        gone
    }

    /// Gives every key that `pick` chooses the value that `make` returns.
    pub(crate) fn set_where<F: Fn(&K) -> bool, G: Fn(V) -> V>(
        &mut self,
        pick: F,
        make: G,
        Ghost(p): Ghost<spec_fn(K::V) -> bool>,
        Ghost(g): Ghost<spec_fn(V) -> V>,
    )
        requires
            forall|k: &K| #[trigger] pick.requires((k,)),
            forall|k: &K, b: bool| #[trigger] pick.ensures((k,), b) ==> b == p(k@),
            forall|v: V| #[trigger] make.requires((v,)),
            forall|v: V, w: V| #[trigger] make.ensures((v,), w) ==> w == g(v),
        ensures
            final(self)@ == changed_where(old(self)@, p, g),
    {
        proof {
            use_type_invariant(&*self);
        }
        let ghost all = self.entries@;
        let mut entries: Vec<(K, V)> = Vec::new();
        core::mem::swap(&mut entries, &mut self.entries);
        let mut next: Vec<(K, V)> = Vec::new();
        while entries.len() > 0
            invariant
                next@.len() <= all.len(),
                entries@ == all.skip(next@.len() as int),
                forall|j: int|
                    0 <= j < next@.len() ==> (#[trigger] next@[j]).0@ == all[j].0@ && next@[j].1
                        == if p(all[j].0@) {
                        g(all[j].1)
                    } else {
                        all[j].1
                    },
                forall|k: &K| #[trigger] pick.requires((k,)),
                forall|k: &K, b: bool| #[trigger] pick.ensures((k,), b) ==> b == p(k@),
                forall|v: V| #[trigger] make.requires((v,)),
                forall|v: V, w: V| #[trigger] make.ensures((v,), w) ==> w == g(v),
            decreases entries@.len(),
        {
            let (k, v) = entries.remove(0);
            let w = if pick(&k) {
                make(v)
            } else {
                v
            };
            next.push((k, w));
            assert(entries@ =~= all.skip(next@.len() as int));
        }
        entries = next;
        proof {
            let now = entries@;
            assert forall|i: int, j: int| 0 <= i < j < now.len() implies (#[trigger] now[i]).0@ != (
            #[trigger] now[j]).0@ by {
                assert(all[i].0@ != all[j].0@);
            }
            assert forall|k: K::V| has_key(now, k) == has_key(all, k) by {
                if has_key(now, k) {
                    let i = key_index(now, k);
                    assert(all[i].0@ == k);
                }
                if has_key(all, k) {
                    let i = key_index(all, k);
                    assert(now[i].0@ == k);
                }
            }
            assert forall|k: K::V| has_key(now, k) implies #[trigger] map_of(now)[k]
                == changed_where(map_of(all), p, g)[k] by {
                let i = key_index(now, k);
                lemma_entry_in_map(now, i);
                lemma_entry_in_map(all, i);
            }
            assert(map_of(now) =~= changed_where(map_of(all), p, g));
        }
        core::mem::swap(&mut entries, &mut self.entries);
    }
}

/// `m` with the values of the keys that satisfy `p` put through `g`.
pub open spec fn changed_where<K, V>(
    m: Map<K, V>,
    p: spec_fn(K) -> bool,
    g: spec_fn(V) -> V,
) -> Map<K, V> {
    Map::new(
        |k: K| m.contains_key(k),
        |k: K|
            if p(k) {
                g(m[k])
            } else {
                m[k]
            },
    )
}

/// The part of `m` whose keys satisfy `p`.
pub open spec fn kept<K, V>(m: Map<K, V>, p: spec_fn(K) -> bool) -> Map<K, V> {
    Map::new(|k: K| m.contains_key(k) && p(k), |k: K| m[k])
}

/// A set of keys.
pub struct KeyedSet<K: Key> {
    map: KeyedMap<K, ()>,
}

impl<K: Key> View for KeyedSet<K> {
    type V = Set<K::V>;

    closed spec fn view(&self) -> Set<K::V> {
        self.map@.dom()
    }
}

impl<K: Key> KeyedSet<K> {
    /// The members in the order in which they first came.
    pub closed spec fn listed(&self) -> Seq<(K, ())> {
        self.map.listed()
    }

    /// The empty set.
    pub fn new() -> (s: Self)
        ensures
            s@ == Set::<K::V>::empty(),
    {
        let s = KeyedSet { map: KeyedMap::new() };
        assert(s@ =~= Set::<K::V>::empty());
        s
    }

    /// Number of members.
    pub fn len(&self) -> (n: usize)
        ensures
            n == self.listed().len(),
            self@ == map_of(self.listed()).dom(),
            distinct_keys(self.listed()),
            self@.finite(),
            n == self@.len(),
    {
        self.map.len()
    }

    /// Whether there are none.
    pub fn is_empty(&self) -> (r: bool)
        ensures
            r == (self@ == Set::<K::V>::empty()),
    {
        let r = self.map.is_empty();
        proof {
            if self@ =~= Set::<K::V>::empty() {
                assert(self.map@ =~= Map::<K::V, ()>::empty());
            }
        }
        r
    }

    /// Member at position `i` of the list.
    pub fn at(&self, i: usize) -> (r: &K)
        requires
            i < self.listed().len(),
        ensures
            *r == self.listed()[i as int].0,
            self@.contains(r@),
    {
        &self.map.at(i).0
    }

    /// Whether a key is a member.
    pub fn contains<Q: Query<K> + ?Sized>(&self, q: &Q) -> (r: bool)
        ensures
            r == self@.contains(q.wanted()),
    {
        self.map.contains_key(q)
    }

    /// Makes a key a member; the answer tells whether it was none before.
    pub fn insert(&mut self, k: K) -> (fresh: bool)
        ensures
            final(self)@ == old(self)@.insert(k@),
            fresh == !old(self)@.contains(k@),
    {
        let fresh = !self.map.contains_key(&k);
        self.map.insert(k, ());
        assert(self@ =~= old(self)@.insert(k@));
        fresh
    }

    /// Takes a key out.
    pub fn remove<Q: Query<K> + ?Sized>(&mut self, q: &Q)
        ensures
            final(self)@ == old(self)@.remove(q.wanted()),
    {
        self.map.remove(q);
        assert(self@ =~= old(self)@.remove(q.wanted()));
    }

    /// Takes every key out.
    pub fn clear(&mut self)
        ensures
            final(self)@ == Set::<K::V>::empty(),
    {
        self.map.clear();
        assert(self@ =~= Set::<K::V>::empty());
    }

    /// Takes out every key that `keep` refuses.
    pub(crate) fn retain<F: Fn(&K, &()) -> bool>(
        &mut self,
        keep: F,
        Ghost(p): Ghost<spec_fn(K::V) -> bool>,
    )
        requires
            forall|k: &K, v: &()| #[trigger] keep.requires((k, v)),
            forall|k: &K, v: &(), b: bool| #[trigger] keep.ensures((k, v), b) ==> b == p(k@),
        ensures
            final(self)@ == old(self)@.filter(p),
    {
        self.map.retain(keep, Ghost(p));
        assert(self@ =~= old(self)@.filter(p));
    }
}

/// The part that is kept has the keys that satisfy the condition, each with its
/// value.
pub proof fn law_kept_keys_keep_their_value<K, V>(m: Map<K, V>, p: spec_fn(K) -> bool, k: K)
    ensures
        kept(m, p).contains_key(k) <==> m.contains_key(k) && p(k),
        m.contains_key(k) && p(k) ==> kept(m, p)[k] == m[k],
{
}

/// A change reaches the keys that satisfy the condition and no others, and
/// neither adds nor drops a key.
pub proof fn law_changes_reach_their_keys<K, V>(
    m: Map<K, V>,
    p: spec_fn(K) -> bool,
    g: spec_fn(V) -> V,
    k: K,
)
    ensures
        changed_where(m, p, g).contains_key(k) == m.contains_key(k),
        m.contains_key(k) && p(k) ==> changed_where(m, p, g)[k] == g(m[k]),
        m.contains_key(k) && !p(k) ==> changed_where(m, p, g)[k] == m[k],
{
}

} // verus!
