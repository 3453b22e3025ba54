//! Values that are compared and copied by their view, and a small map over
//! such keys that keeps its entries in insertion order.
use vstd::prelude::*;

verus! {

/// A value that can be copied; the copy has the same view.
pub trait Duplicate: View + Sized {
    fn duplicate(&self) -> (copy: Self)
        ensures
            copy@ == self@,
    ;
}

/// A value that can serve as a key: two keys are the same exactly when their
/// views are equal.
pub trait Key: Duplicate {
    fn same(&self, other: &Self) -> (same: bool)
        ensures
            same == (self@ == other@),
    ;
}

impl Duplicate for String {
    fn duplicate(&self) -> (copy: Self) {
        self.clone()
    }
}

impl Key for String {
    fn same(&self, other: &Self) -> (same: bool) {
        *self == *other
    }
}

/// The views of a list of values.
pub open spec fn key_views<K: View>(keys: Seq<K>) -> Seq<K::V> {
    keys.map_values(|k: K| k@)
}

/// The view of an optional value.
pub open spec fn option_view<T: View>(value: Option<T>) -> Option<T::V> {
    match value {
        Some(v) => Some(v@),
        None => None,
    }
}

/// Copies every element of a list.
pub fn duplicate_all<K: Duplicate>(keys: &Vec<K>) -> (copy: Vec<K>)
    ensures
        key_views(copy@) == key_views(keys@),
{
    let mut copy: Vec<K> = Vec::new();
    let mut i: usize = 0;
    while i < keys.len()
        invariant
            i <= keys.len(),
            copy.len() == i,
            forall|j: int| 0 <= j < i ==> copy@[j]@ == keys@[j]@,
        decreases keys.len() - i,
    {
        let k = keys[i].duplicate();
        copy.push(k);
        i += 1;
    }
    assert(key_views(copy@) =~= key_views(keys@));
    copy
}

/// Copies an optional value.
pub fn duplicate_option<T: Duplicate>(value: &Option<T>) -> (copy: Option<T>)
    ensures
        option_view(copy) == option_view(*value),
{
    match value {
        Some(v) => Some(v.duplicate()),
        None => None,
    }
}

/// The first position at which `key` occurs in `keys`.
pub fn position_of<K: Key>(keys: &Vec<K>, key: &K) -> (r: Option<usize>)
    ensures
        match r {
            Some(i) => i < keys.len() && key_views(keys@)[i as int] == key@ && !key_views(
                keys@,
            ).take(i as int).contains(key@),
            None => !key_views(keys@).contains(key@),
        },
{
    let mut i: usize = 0;
    while i < keys.len()
        invariant
            i <= keys.len(),
            forall|j: int| 0 <= j < i ==> key_views(keys@)[j] != key@,
        decreases keys.len() - i,
    {
        if keys[i].same(key) {
            return Some(i);
        }
        i += 1;
    }
    None
}

/// Whether the two optional keys are the same.
pub fn same_option<K: Key>(a: &Option<K>, b: &Option<K>) -> (r: bool)
    ensures
        r == (option_view(*a) == option_view(*b)),
{
    match (a, b) {
        (Some(x), Some(y)) => x.same(y),
        (None, None) => true,
        _ => false,
    }
}

/// A map from keys to values, kept as a list of entries in insertion order.
/// No key occurs twice.
#[derive(Debug)]
pub struct KeyedList<K, V> {
    pub entries: Vec<(K, V)>,
}

impl<K: Key, V> KeyedList<K, V> {
    /// The keys, in insertion order.
    pub open spec fn keys(&self) -> Seq<K::V> {
        self.entries@.map_values(|e: (K, V)| e.0@)
    }

    /// No key occurs twice.
    pub open spec fn wf(&self) -> bool {
        self.keys().no_duplicates()
    }

    /// The list read as a map.
    pub open spec fn map(&self) -> Map<K::V, V> {
        Map::new(
            |k: K::V| self.keys().contains(k),
            |k: K::V| self.entries@[self.keys().index_of(k)].1,
        )
    }

    pub proof fn lemma_entry(&self, i: int)
        requires
            self.wf(),
            0 <= i < self.entries@.len(),
        ensures
            self.map().contains_key(self.entries@[i].0@),
            self.map()[self.entries@[i].0@] == self.entries@[i].1,
            self.keys().index_of(self.entries@[i].0@) == i,
    {
        let k = self.entries@[i].0@;
        assert(self.keys()[i] == k);
        let j = self.keys().index_of(k);
        assert(self.keys()[j] == k);
    }

    pub fn new() -> (list: Self)
        ensures
            list.wf(),
            list.map() == Map::<K::V, V>::empty(),
            list.entries@.len() == 0,
    {
        let list = KeyedList { entries: Vec::new() };
        assert(list.map() =~= Map::<K::V, V>::empty());
        list
    }

    pub fn len(&self) -> (n: usize)
        ensures
            n == self.entries@.len(),
    {
        self.entries.len()
    }

    /// The position of the entry with this key.
    pub fn position(&self, key: &K) -> (r: Option<usize>)
        ensures
            match r {
                Some(i) => i < self.entries@.len() && self.keys()[i as int] == key@,
                None => !self.keys().contains(key@),
            },
            r is Some == self.map().contains_key(key@),
    {
        let mut i: usize = 0;
        while i < self.entries.len()
            invariant
                i <= self.entries.len(),
                forall|j: int| 0 <= j < i ==> self.keys()[j] != key@,
            decreases self.entries.len() - i,
        {
            if self.entries[i].0.same(key) {
                assert(self.keys()[i as int] == key@);
                return Some(i);
            }
            i += 1;
        }
        None
    }

    /// `i` is the first position at which `key` occurs.
    pub open spec fn is_first(&self, key: K::V, i: int) -> bool {
        &&& 0 <= i < self.keys().len()
        &&& self.keys()[i] == key
        &&& forall|j: int| 0 <= j < i ==> self.keys()[j] != key
    }

    /// The value of the first entry with this key. Where no key occurs
    /// twice this is the value that the map gives.
    pub open spec fn first(&self, key: K::V) -> Option<V> {
        if exists|i: int| self.is_first(key, i) {
            Some(self.entries@[choose|i: int| self.is_first(key, i)].1)
        } else {
            None
        }
    }

    pub proof fn lemma_first(&self, key: K::V)
        ensures
            self.first(key) is Some == self.keys().contains(key),
            self.wf() && self.map().contains_key(key) ==> self.first(key) == Some(self.map()[key]),
    {
        if self.keys().contains(key) {
            assert(self.keys().take(self.keys().len() as int) =~= self.keys());
            let i = self.lemma_first_exists(key, self.keys().len() as int);
            assert(self.is_first(key, i));
        }
        if exists|i: int| self.is_first(key, i) {
            let i = choose|i: int| self.is_first(key, i);
            assert(self.keys()[i] == key);
            if self.wf() {
                self.lemma_entry(i);
            }
        }
    }

    proof fn lemma_first_exists(&self, key: K::V, n: int) -> (i: int)
        requires
            0 <= n <= self.keys().len(),
            self.keys().take(n).contains(key),
        ensures
            self.is_first(key, i),
        decreases n,
    {
        let j = choose|j: int| 0 <= j < self.keys().take(n).len() && self.keys().take(n)[j] == key;
        assert(self.keys()[j] == key);
        if exists|l: int| 0 <= l < j && self.keys()[l] == key {
            let l = choose|l: int| 0 <= l < j && self.keys()[l] == key;
            assert(self.keys().take(j)[l] == key);
            self.lemma_first_exists(key, j)
        } else {
            j
        }
    }

    /// The value of the first entry with this key.
    pub fn get_first(&self, key: &K) -> (r: Option<&V>)
        ensures
            match r {
                Some(v) => self.first(key@) == Some(*v),
                None => self.first(key@) is None,
            },
    {
        let mut i: usize = 0;
        while i < self.entries.len()
            invariant
                i <= self.entries.len(),
                forall|j: int| 0 <= j < i ==> self.keys()[j] != key@,
            decreases self.entries.len() - i,
        {
            if self.entries[i].0.same(key) {
                proof {
                    assert(self.is_first(key@, i as int));
                    let c = choose|c: int| self.is_first(key@, c);
                    assert(self.is_first(key@, c));
                    if c < i {
                        assert(self.keys()[c] != key@);
                    } else if i < c {
                        assert(self.keys()[i as int] != key@);
                    }
                }
                return Some(&self.entries[i].1);
            }
            i += 1;
        }
        proof {
            if exists|c: int| self.is_first(key@, c) {
                let c = choose|c: int| self.is_first(key@, c);
                assert(self.keys()[c] == key@);
            }
        }
        None
    }

    pub fn contains(&self, key: &K) -> (r: bool)
        ensures
            r == self.map().contains_key(key@),
    {
        self.position(key).is_some()
    }

    pub fn get(&self, key: &K) -> (r: Option<&V>)
        requires
            self.wf(),
        ensures
            match r {
                Some(v) => self.map().contains_key(key@) && *v == self.map()[key@],
                None => !self.map().contains_key(key@),
            },
    {
        match self.position(key) {
            Some(i) => {
                proof {
                    self.lemma_entry(i as int);
                }
                Some(&self.entries[i].1)
            },
            None => None,
        }
    }

    /// Sets the value of `key`, adding an entry at the end when the key is new.
    pub fn insert(&mut self, key: K, value: V)
        requires
            old(self).wf(),
        ensures
            final(self).wf(),
            final(self).map() == old(self).map().insert(key@, value),
            old(self).map().contains_key(key@) ==> final(self).keys() == old(self).keys(),
            !old(self).map().contains_key(key@) ==> final(self).keys() == old(self).keys().push(
                key@,
            ),
    {
        let ghost before = *self;
        match self.position(&key) {
            Some(i) => {
                self.entries.set(i, (key, value));
                assert(self.keys() =~= before.keys());
                assert forall|k: K::V| self.map().contains_key(k) implies #[trigger] self.map()[k]
                    == before.map().insert(key@, value)[k] by {
                    let j = self.keys().index_of(k);
                    assert(self.keys()[j] == k);
                    if k == key@ {
                        assert(self.keys()[i as int] == k);
                    }
                }
                assert(self.map() =~= before.map().insert(key@, value));
            },
            None => {
                self.entries.push((key, value));
                assert(self.keys() =~= before.keys().push(key@));
                assert forall|k: K::V| self.map().contains_key(k) implies #[trigger] self.map()[k]
                    == before.map().insert(key@, value)[k] by {
                    let j = self.keys().index_of(k);
                    assert(self.keys()[j] == k);
                    if k == key@ {
                        assert(self.keys()[before.entries@.len() as int] == k);
                    } else {
                        let j0 = before.keys().index_of(k);
                        assert(before.keys()[j] == k);
                        assert(before.keys()[j0] == k);
                    }
                }
                assert forall|k: K::V| before.map().insert(key@, value).contains_key(
                    k,
                ) implies self.map().contains_key(k) by {
                    if k == key@ {
                        assert(self.keys()[before.entries@.len() as int] == k);
                    } else {
                        let j0 = before.keys().index_of(k);
                        assert(before.keys()[j0] == k);
                        assert(self.keys()[j0] == k);
                    }
                }
                assert(self.map() =~= before.map().insert(key@, value));
            },
        }
    }

    /// Takes the entry of `key` out of the list.
    pub fn remove(&mut self, key: &K) -> (r: Option<V>)
        requires
            old(self).wf(),
        ensures
            final(self).wf(),
            final(self).map() == old(self).map().remove(key@),
            r == if old(self).map().contains_key(key@) {
                Some(old(self).map()[key@])
            } else {
                None::<V>
            },
    {
        let ghost before = *self;
        match self.position(key) {
            Some(i) => {
                proof {
                    before.lemma_entry(i as int);
                }
                let entry = self.entries.remove(i);
                assert(self.keys() =~= before.keys().remove(i as int));
                assert forall|k: K::V| self.map().contains_key(k) implies before.map().remove(
                    key@,
                ).contains_key(k) && #[trigger] self.map()[k] == before.map()[k] by {
                    let j = self.keys().index_of(k);
                    assert(self.keys()[j] == k);
                    let j1 = if j < i { j } else { j + 1 };
                    assert(before.keys()[j1] == k);
                    before.lemma_entry(j1);
                }
                assert forall|k: K::V| before.map().remove(key@).contains_key(
                    k,
                ) implies self.map().contains_key(k) by {
                    let j0 = before.keys().index_of(k);
                    assert(before.keys()[j0] == k);
                    let j1 = if j0 < i { j0 } else { j0 - 1 };
                    assert(self.keys()[j1] == k);
                }
                assert(self.map() =~= before.map().remove(key@));
                Some(entry.1)
            },
            None => {
                assert(self.map() =~= before.map().remove(key@));
                None
            },
        }
    }
}

/// Whether some pair has the key `a`.
pub open spec fn has_key<A, B>(pairs: Seq<(A, B)>, a: A) -> bool {
    exists|i: int| 0 <= i < pairs.len() && (#[trigger] pairs[i]).0 == a
}

/// The position of a pair with the key `a`.
pub open spec fn key_position<A, B>(pairs: Seq<(A, B)>, a: A) -> int {
    choose|i: int| 0 <= i < pairs.len() && (#[trigger] pairs[i]).0 == a
}

/// No two pairs have the same key.
pub open spec fn distinct_keys<A, B>(pairs: Seq<(A, B)>) -> bool {
    forall|i: int, j: int|
        0 <= i < j < pairs.len() ==> (#[trigger] pairs[i]).0 != (#[trigger] pairs[j]).0
}

/// The value that goes with the key `a`.
pub open spec fn value_of<A, B>(pairs: Seq<(A, B)>, a: A) -> Option<B> {
    if has_key(pairs, a) {
        Some(pairs[key_position(pairs, a)].1)
    } else {
        None
    }
}

/// The pairs with `a` set to `b`: in place where the key is there, at the
/// end where it is new.
pub open spec fn put<A, B>(pairs: Seq<(A, B)>, a: A, b: B) -> Seq<(A, B)> {
    if has_key(pairs, a) {
        pairs.update(key_position(pairs, a), (a, b))
    } else {
        pairs.push((a, b))
    }
}

/// The pairs of `base` with the first `n` pairs of `extra` put on top, one
/// after the other.
pub open spec fn put_all<A, B>(base: Seq<(A, B)>, extra: Seq<(A, B)>, n: nat) -> Seq<(A, B)>
    decreases n,
{
    if n == 0 {
        base
    } else {
        put(put_all(base, extra, (n - 1) as nat), extra[n - 1].0, extra[n - 1].1)
    }
}

/// Putting a value under a key keeps the keys distinct, gives the key that
/// value, and leaves every other key as it was.
pub proof fn law_put<A, B>(pairs: Seq<(A, B)>, a: A, b: B)
    requires
        distinct_keys(pairs),
    ensures
        distinct_keys(put(pairs, a, b)),
        has_key(put(pairs, a, b), a),
        value_of(put(pairs, a, b), a) == Some(b),
        forall|x: A| x != a ==> has_key(put(pairs, a, b), x) == has_key(pairs, x),
        forall|x: A| x != a ==> value_of(put(pairs, a, b), x) == value_of(pairs, x),
{
    let after = put(pairs, a, b);
    if has_key(pairs, a) {
        let p = key_position(pairs, a);
        assert(after[p].0 == a);
        assert forall|x: A| x != a implies has_key(after, x) == has_key(pairs, x)
            && value_of(after, x) == value_of(pairs, x) by {
            if has_key(pairs, x) {
                let i = key_position(pairs, x);
                assert(after[i].0 == x);
                let j = key_position(after, x);
                assert(pairs[j].0 == x);
                if i < j {
                    assert(pairs[i].0 != pairs[j].0);
                } else if j < i {
                    assert(pairs[j].0 != pairs[i].0);
                }
            }
            if has_key(after, x) {
                let j = key_position(after, x);
                assert(pairs[j].0 == x);
            }
        }
        let q = key_position(after, a);
        if p < q {
            assert(after[p].0 != after[q].0);
        } else if q < p {
            assert(after[q].0 != after[p].0);
        }
    } else {
        let n = pairs.len() as int;
        assert(after[n].0 == a);
        assert forall|i: int, j: int| 0 <= i < j < after.len() implies (#[trigger] after[i]).0 != (
        #[trigger] after[j]).0 by {
            if j == n {
                assert(pairs[i].0 != a);
            }
        }
        let q = key_position(after, a);
        if q < n {
            assert(pairs[q].0 == a);
        }
        assert forall|x: A| x != a implies has_key(after, x) == has_key(pairs, x)
            && value_of(after, x) == value_of(pairs, x) by {
            if has_key(pairs, x) {
                let i = key_position(pairs, x);
                assert(after[i].0 == x);
                let j = key_position(after, x);
                assert(pairs[j].0 == x);
                if i < j {
                    assert(pairs[i].0 != pairs[j].0);
                } else if j < i {
                    assert(pairs[j].0 != pairs[i].0);
                }
            }
            if has_key(after, x) {
                let j = key_position(after, x);
                assert(pairs[j].0 == x);
            }
        }
    }
}

impl<K: Key, V: View> KeyedList<K, V> {
    /// The entries by their views, in insertion order.
    pub open spec fn deep(&self) -> Seq<(K::V, V::V)> {
        self.entries@.map_values(|e: (K, V)| (e.0@, e.1@))
    }

    pub proof fn lemma_deep(&self)
        ensures
            self.wf() == distinct_keys(self.deep()),
            self.deep().len() == self.entries@.len(),
            forall|k: K::V| has_key(self.deep(), k) == self.map().contains_key(k),
            self.wf() ==> forall|k: K::V| #[trigger]
                self.map().contains_key(k) ==> value_of(self.deep(), k) == Some(self.map()[k]@),
    {
        let d = self.deep();
        let keys = self.keys();
        assert forall|k: K::V| has_key(d, k) == self.map().contains_key(k) by {
            if has_key(d, k) {
                let i = key_position(d, k);
                assert(keys[i] == k);
            }
            if keys.contains(k) {
                let i = keys.index_of(k);
                assert(d[i].0 == k);
            }
        }
        if self.wf() {
            assert forall|i: int, j: int| 0 <= i < j < d.len() implies (#[trigger] d[i]).0 != (
            #[trigger] d[j]).0 by {
                assert(keys[i] == d[i].0 && keys[j] == d[j].0);
            }
            assert forall|k: K::V| #[trigger] self.map().contains_key(k) implies value_of(d, k)
                == Some(self.map()[k]@) by {
                let i = key_position(d, k);
                assert(d[i].0 == k);
                self.lemma_entry(i);
            }
        }
        if distinct_keys(d) {
            assert forall|i: int, j: int|
                0 <= i < keys.len() && 0 <= j < keys.len() && i != j implies keys[i]
                != keys[j] by {
                if i < j {
                    assert(d[i].0 != d[j].0);
                } else {
                    assert(d[j].0 != d[i].0);
                }
            }
        }
    }

    /// Sets the value of `key`; stated over the views of the entries.
    pub fn put(&mut self, key: K, value: V)
        requires
            old(self).wf(),
        ensures
            final(self).wf(),
            final(self).deep() == put(old(self).deep(), key@, value@),
            final(self).map() == old(self).map().insert(key@, value),
    {
        let ghost before = *self;
        let ghost d = self.deep();
        proof {
            before.lemma_deep();
        }
        match self.position(&key) {
            Some(i) => {
                proof {
                    before.lemma_entry(i as int);
                    assert(d[i as int].0 == key@);
                    let p = key_position(d, key@);
                    if p < i {
                        assert(d[p].0 != d[i as int].0);
                    } else if i < p {
                        assert(d[i as int].0 != d[p].0);
                    }
                }
                self.entries.set(i, (key, value));
                assert(self.deep() =~= put(d, key@, value@));
                assert(self.keys() =~= before.keys());
                assert forall|k: K::V| self.map().contains_key(k) implies #[trigger] self.map()[k]
                    == before.map().insert(key@, value)[k] by {
                    let j = self.keys().index_of(k);
                    assert(self.keys()[j] == k);
                    if k == key@ {
                        assert(self.keys()[i as int] == k);
                    }
                }
                assert(self.map() =~= before.map().insert(key@, value));
            },
            None => {
                proof {
                    if has_key(d, key@) {
                        let p = key_position(d, key@);
                        assert(before.keys()[p] == key@);
                    }
                }
                self.insert(key, value);
                assert(self.entries@.len() == before.entries@.len() + 1) by {
                    assert(self.keys().len() == before.keys().len() + 1);
                }
                proof {
                    self.lemma_pushed(&before, key@, value);
                }
                assert(self.deep() =~= put(d, key@, value@));
            },
        }
    }

    proof fn lemma_pushed(&self, before: &Self, key: K::V, value: V)
        requires
            before.wf(),
            self.wf(),
            self.keys() == before.keys().push(key),
            self.map() == before.map().insert(key, value),
            !before.map().contains_key(key),
        ensures
            self.deep() == before.deep().push((key, value@)),
    {
        let n = before.entries@.len() as int;
        assert(self.keys().len() == n + 1);
        assert forall|i: int| 0 <= i < n + 1 implies self.deep()[i] == before.deep().push(
            (key, value@),
        )[i] by {
            self.lemma_entry(i);
            assert(self.keys()[i] == self.entries@[i].0@);
            if i < n {
                before.lemma_entry(i);
                assert(before.keys()[i] == self.keys()[i]);
            }
        }
        assert(self.deep() =~= before.deep().push((key, value@)));
    }
}

impl<K: Key, V: Duplicate> KeyedList<K, V> {
    /// A copy of the list, entry by entry.
    pub fn duplicate_list(&self) -> (copy: Self)
        ensures
            copy.deep() == self.deep(),
            copy.wf() == self.wf(),
    {
        let mut entries: Vec<(K, V)> = Vec::new();
        let mut i: usize = 0;
        while i < self.entries.len()
            invariant
                i <= self.entries.len(),
                entries.len() == i,
                forall|j: int|
                    0 <= j < i ==> entries@[j].0@ == self.entries@[j].0@ && entries@[j].1@
                        == self.entries@[j].1@,
            decreases self.entries.len() - i,
        {
            let k = self.entries[i].0.duplicate();
            let v = self.entries[i].1.duplicate();
            entries.push((k, v));
            i += 1;
        }
        let copy = KeyedList { entries };
        assert(copy.deep() =~= self.deep());
        assert(copy.keys() =~= self.keys());
        copy
    }

    /// Puts every entry of `extra` on top of this list, in order.
    pub fn put_list(&mut self, extra: &KeyedList<K, V>)
        requires
            old(self).wf(),
        ensures
            final(self).wf(),
            final(self).deep() == put_all(old(self).deep(), extra.deep(), extra.deep().len()),
    {
        let mut i: usize = 0;
        while i < extra.entries.len()
            invariant
                i <= extra.entries.len(),
                self.wf(),
                self.deep() == put_all(old(self).deep(), extra.deep(), i as nat),
            decreases extra.entries.len() - i,
        {
            let k = extra.entries[i].0.duplicate();
            let v = extra.entries[i].1.duplicate();
            assert(extra.deep()[i as int] == (k@, v@));
            self.put(k, v);
            i += 1;
        }
    }

    /// The keys of the list, in order.
    pub fn key_list(&self) -> (keys: Vec<K>)
        ensures
            key_views(keys@) == self.keys(),
    {
        let mut keys: Vec<K> = Vec::new();
        let mut i: usize = 0;
        while i < self.entries.len()
            invariant
                i <= self.entries.len(),
                keys.len() == i,
                forall|j: int| 0 <= j < i ==> keys@[j]@ == self.entries@[j].0@,
            decreases self.entries.len() - i,
        {
            keys.push(self.entries[i].0.duplicate());
            i += 1;
        }
        assert(key_views(keys@) =~= self.keys());
        keys
    }
}

} // verus!
