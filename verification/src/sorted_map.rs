//! An ordered map: entries sorted strictly by key, as std's `BTreeMap`
//! iterates them.

use vstd::prelude::*;
use crate::collation::{Comparison, MapKey};

verus! {

/// Keys strictly increasing.
pub open spec fn keys_sorted<K: MapKey, V>(kv: Seq<(K::V, V)>) -> bool {
    forall|i: int, j: int| 0 <= i < j < kv.len() ==> K::key_lt(#[trigger] kv[i].0, #[trigger] kv[j].0)
}

/// The index of the entry with key `k`, if any.
pub open spec fn key_index<KV, V>(kv: Seq<(KV, V)>, k: KV) -> Option<int> {
    if exists|i: int| 0 <= i < kv.len() && kv[i].0 == k {
        Some(choose|i: int| 0 <= i < kv.len() && kv[i].0 == k)
    } else {
        None
    }
}

/// The value stored under key `k`, if any.
pub open spec fn lookup<KV, V>(kv: Seq<(KV, V)>, k: KV) -> Option<V> {
    match key_index(kv, k) {
        Some(i) => Some(kv[i].1),
        None => None,
    }
}

/// In a sorted entry sequence the entry with a given key is unique.
pub proof fn lemma_key_index_unique<K: MapKey, V>(kv: Seq<(K::V, V)>, i: int)
    requires
        keys_sorted::<K, V>(kv),
        0 <= i < kv.len(),
    ensures
        key_index(kv, kv[i].0) == Some(i),
        lookup(kv, kv[i].0) == Some(kv[i].1),
{
    let k = kv[i].0;
    assert(exists|j: int| 0 <= j < kv.len() && kv[j].0 == k);
    let j = choose|j: int| 0 <= j < kv.len() && kv[j].0 == k;
    if j < i {
        K::lemma_key_order(kv[j].0, kv[i].0, kv[j].0);
    } else if i < j {
        K::lemma_key_order(kv[i].0, kv[j].0, kv[i].0);
    }
}

/// Replacing the value of entry `i` changes the lookup of its key only.
pub proof fn lemma_lookup_update<K: MapKey, V>(kv: Seq<(K::V, V)>, i: int, w: V)
    requires
        keys_sorted::<K, V>(kv),
        0 <= i < kv.len(),
    ensures
        keys_sorted::<K, V>(kv.update(i, (kv[i].0, w))),
        lookup(kv.update(i, (kv[i].0, w)), kv[i].0) == Some(w),
        forall|k2: K::V| k2 != kv[i].0 ==> lookup(kv.update(i, (kv[i].0, w)), k2) == lookup(kv, k2),
{
    let kv2 = kv.update(i, (kv[i].0, w));
    assert forall|a: int, b: int| 0 <= a < b < kv2.len() implies K::key_lt(
        #[trigger] kv2[a].0,
        #[trigger] kv2[b].0,
    ) by {
        assert(kv2[a].0 == kv[a].0 && kv2[b].0 == kv[b].0);
    }
    lemma_key_index_unique::<K, V>(kv2, i);
    assert forall|k2: K::V| k2 != kv[i].0 implies lookup(kv2, k2) == lookup(kv, k2) by {
        if exists|j: int| 0 <= j < kv.len() && kv[j].0 == k2 {
            let j = choose|j: int| 0 <= j < kv.len() && kv[j].0 == k2;
            lemma_key_index_unique::<K, V>(kv, j);
            lemma_key_index_unique::<K, V>(kv2, j);
        } else if exists|j: int| 0 <= j < kv2.len() && kv2[j].0 == k2 {
            let j = choose|j: int| 0 <= j < kv2.len() && kv2[j].0 == k2;
            assert(kv[j].0 == k2);
        }
    }
}

/// Inserting an entry with a new key at `p` adds that key only.
pub proof fn lemma_lookup_insert<K: MapKey, V>(kv: Seq<(K::V, V)>, p: int, k: K::V, w: V)
    requires
        keys_sorted::<K, V>(kv.insert(p, (k, w))),
        0 <= p <= kv.len(),
        key_index(kv, k) is None,
    ensures
        lookup(kv.insert(p, (k, w)), k) == Some(w),
        forall|k2: K::V| k2 != k ==> lookup(kv.insert(p, (k, w)), k2) == lookup(kv, k2),
{
    let kv2 = kv.insert(p, (k, w));
    lemma_key_index_unique::<K, V>(kv2, p);
    assert forall|k2: K::V| k2 != k implies lookup(kv2, k2) == lookup(kv, k2) by {
        if exists|j: int| 0 <= j < kv.len() && kv[j].0 == k2 {
            let j = choose|j: int| 0 <= j < kv.len() && kv[j].0 == k2;
            let j2 = if j < p { j } else { j + 1 };
            assert(kv2[j2] == kv[j]);
            assert forall|a: int, b: int| 0 <= a < b < kv.len() implies K::key_lt(
                #[trigger] kv[a].0,
                #[trigger] kv[b].0,
            ) by {
                let a2 = if a < p { a } else { a + 1 };
                let b2 = if b < p { b } else { b + 1 };
                assert(kv2[a2] == kv[a] && kv2[b2] == kv[b]);
            }
            lemma_key_index_unique::<K, V>(kv, j);
            lemma_key_index_unique::<K, V>(kv2, j2);
        } else if exists|j: int| 0 <= j < kv2.len() && kv2[j].0 == k2 {
            let j = choose|j: int| 0 <= j < kv2.len() && kv2[j].0 == k2;
            if j < p {
                assert(kv[j].0 == k2);
            } else {
                assert(kv[j - 1].0 == k2);
            }
        }
    }
}

/// Past the first entry of a sorted sequence, lookups are those of the whole
/// sequence, but for the first key, which is gone.
pub proof fn lemma_lookup_drop_first<K: MapKey, V>(kv: Seq<(K::V, V)>, q: K::V)
    requires
        keys_sorted::<K, V>(kv),
        kv.len() > 0,
    ensures
        keys_sorted::<K, V>(kv.drop_first()),
        lookup(kv.drop_first(), q) == if q == kv[0].0 {
            None
        } else {
            lookup(kv, q)
        },
{
    let d = kv.drop_first();
    assert forall|a: int, b: int| 0 <= a < b < d.len() implies K::key_lt(#[trigger] d[a].0, #[trigger] d[b].0) by {
        assert(d[a] == kv[a + 1] && d[b] == kv[b + 1]);
    }
    if exists|j: int| 0 <= j < d.len() && d[j].0 == q {
        let j = choose|j: int| 0 <= j < d.len() && d[j].0 == q;
        assert(d[j] == kv[j + 1]);
        lemma_key_index_unique::<K, V>(d, j);
        lemma_key_index_unique::<K, V>(kv, j + 1);
        if q == kv[0].0 {
            assert(K::key_lt(kv[0].0, kv[j + 1].0));
            K::lemma_key_order(kv[0].0, kv[0].0, kv[0].0);
        }
    } else {
        if q != kv[0].0 {
            if exists|j: int| 0 <= j < kv.len() && kv[j].0 == q {
                let j = choose|j: int| 0 <= j < kv.len() && kv[j].0 == q;
                assert(d[j - 1] == kv[j]);
            }
        }
    }
}

/// Two sorted entry sequences with the same lookups are one sequence: what
/// a sorted map holds under each key fixes its entries and their order.
pub proof fn lemma_sorted_entries_unique<K: MapKey, V>(a: Seq<(K::V, V)>, b: Seq<(K::V, V)>)
    requires
        keys_sorted::<K, V>(a),
        keys_sorted::<K, V>(b),
        forall|q: K::V| #[trigger] lookup(a, q) == lookup(b, q),
    ensures
        a == b,
    decreases a.len(),
{
    if a.len() == 0 {
        if b.len() > 0 {
            lemma_key_index_unique::<K, V>(b, 0);
            assert(lookup(a, b[0].0) == lookup(b, b[0].0));
        }
        assert(a =~= b);
    } else {
        lemma_key_index_unique::<K, V>(a, 0);
        assert(lookup(a, a[0].0) == lookup(b, a[0].0));
        let j = choose|j: int| 0 <= j < b.len() && b[j].0 == a[0].0;
        lemma_key_index_unique::<K, V>(b, j);
        lemma_key_index_unique::<K, V>(b, 0);
        assert(lookup(a, b[0].0) == lookup(b, b[0].0));
        let i = choose|i: int| 0 <= i < a.len() && a[i].0 == b[0].0;
        if j > 0 {
            assert(K::key_lt(b[0].0, b[j].0));
            if i > 0 {
                assert(K::key_lt(a[0].0, a[i].0));
                K::lemma_key_order(a[0].0, b[0].0, a[0].0);
            } else {
                K::lemma_key_order(a[0].0, a[0].0, a[0].0);
            }
        }
        assert(a[0] == b[0]);
        let a2 = a.drop_first();
        let b2 = b.drop_first();
        assert forall|q: K::V| #[trigger] lookup(a2, q) == lookup(b2, q) by {
            lemma_lookup_drop_first::<K, V>(a, q);
            lemma_lookup_drop_first::<K, V>(b, q);
            assert(lookup(a, q) == lookup(b, q));
        }
        lemma_lookup_drop_first::<K, V>(a, a[0].0);
        lemma_lookup_drop_first::<K, V>(b, a[0].0);
        lemma_sorted_entries_unique::<K, V>(a2, b2);
        assert(a =~= seq![a[0]] + a2);
        assert(b =~= seq![b[0]] + b2);
    }
}

/// A map ordered by key.
#[derive(Debug)]
pub struct SortedMap<K: MapKey, V> {
    entries: Vec<(K, V)>,
}

impl<K: MapKey, V> SortedMap<K, V> {
    /// The entries in key order, each key by its view.
    pub closed spec fn kv(&self) -> Seq<(K::V, V)> {
        self.entries@.map_values(|e: (K, V)| (e.0@, e.1))
    }

    #[verifier::type_invariant]
    spec fn inv(&self) -> bool {
        keys_sorted::<K, V>(self.kv())
    }

    pub fn new() -> (m: Self)
        ensures
            m.kv().len() == 0,
    {
        let m = SortedMap { entries: Vec::new() };
        assert(m.kv() =~= Seq::<(K::V, V)>::empty());
        m
    }

    pub fn len(&self) -> (n: usize)
        ensures
            n == self.kv().len(),
    {
        self.entries.len()
    }

    pub fn is_empty(&self) -> (b: bool)
        ensures
            b == (self.kv().len() == 0),
    {
        self.entries.len() == 0
    }

    /// Appends an entry whose key is greater than every key present.
    pub fn push_last(&mut self, k: K, v: V)
        requires
            old(self).kv().len() > 0 ==> K::key_lt(old(self).kv().last().0, k@),
        ensures
            final(self).kv() == old(self).kv().push((k@, v)),
    {
        proof {
            use_type_invariant(&*self);
        }
        let ghost kk = k@;
        let mut entries: Vec<(K, V)> = Vec::new();
        std::mem::swap(&mut entries, &mut self.entries);
        let ghost old_kv = entries@.map_values(|e: (K, V)| (e.0@, e.1));
        entries.push((k, v));
        assert(entries@.map_values(|e: (K, V)| (e.0@, e.1)) =~= old_kv.push((kk, v)));
        proof {
            assert forall|i: int, j: int|
                0 <= i < j < old_kv.len() + 1 implies K::key_lt(
                #[trigger] old_kv.push((kk, v))[i].0,
                #[trigger] old_kv.push((kk, v))[j].0,
            ) by {
                if j == old_kv.len() && i < old_kv.len() - 1 {
                    K::lemma_key_order(old_kv[i].0, old_kv.last().0, kk);
                }
            }
        }
        self.entries = entries;
    }

    /// Entries are in strictly increasing key order.
    pub fn lemma_sorted(&self)
        ensures
            keys_sorted::<K, V>(self.kv()),
    {
        proof {
            use_type_invariant(self);
        }
    }

    pub fn key_at(&self, i: usize) -> (k: &K)
        requires
            i < self.kv().len(),
        ensures
            k@ == self.kv()[i as int].0,
    {
        &self.entries[i].0
    }

    pub fn value_at(&self, i: usize) -> (v: &V)
        requires
            i < self.kv().len(),
        ensures
            *v == self.kv()[i as int].1,
    {
        &self.entries[i].1
    }

    /// Where `k` stands: `Ok(i)` at entry `i`, or `Err(i)` where it would be
    /// inserted.
    pub fn find(&self, k: &K) -> (r: Result<usize, usize>)
        ensures
            match r {
                Ok(i) => i < self.kv().len() && self.kv()[i as int].0 == k@,
                Err(i) => i <= self.kv().len() && (forall|j: int|
                    0 <= j < i ==> K::key_lt(#[trigger] self.kv()[j].0, k@)) && (forall|j: int|
                    i <= j < self.kv().len() ==> K::key_lt(k@, #[trigger] self.kv()[j].0)),
            },
            r is Err ==> key_index(self.kv(), k@) is None,
    {
        proof {
            use_type_invariant(self);
        }
        let n = self.entries.len();
        let mut i: usize = 0;
        while i < n
            invariant
                i <= n == self.kv().len(),
                keys_sorted::<K, V>(self.kv()),
                forall|j: int| 0 <= j < i ==> K::key_lt(#[trigger] self.kv()[j].0, k@),
            decreases n - i,
        {
            match self.entries[i].0.compare(k) {
                Comparison::Less => {},
                Comparison::Equal => {
                    return Ok(i);
                },
                Comparison::Greater => {
                    assert forall|j: int| i <= j < self.kv().len() implies K::key_lt(
                        k@,
                        #[trigger] self.kv()[j].0,
                    ) by {
                        K::lemma_key_order(k@, self.kv()[i as int].0, self.kv()[j].0);
                    }
                    assert forall|j: int| 0 <= j < self.kv().len() implies self.kv()[j].0 != k@ by {
                        K::lemma_key_order(k@, self.kv()[j].0, k@);
                    }
                    return Err(i);
                },
            }
            i = i + 1;
        }
        assert forall|j: int| 0 <= j < self.kv().len() implies self.kv()[j].0 != k@ by {
            K::lemma_key_order(k@, self.kv()[j].0, k@);
        }
        Err(n)
    }

    /// `BTreeMap::get`.
    pub fn get(&self, k: &K) -> (r: Option<&V>)
        ensures
            match r {
                Some(v) => lookup(self.kv(), k@) == Some(*v),
                None => lookup(self.kv(), k@) is None,
            },
    {
        proof {
            use_type_invariant(self);
        }
        match self.find(k) {
            Ok(i) => {
                proof {
                    lemma_key_index_unique::<K, V>(self.kv(), i as int);
                }
                Some(&self.entries[i].1)
            },
            Err(_) => None,
        }
    }

    /// `BTreeMap::insert`: a present key gets the new value in place; a new
    /// key is inserted at its place in the order.
    pub fn insert(&mut self, k: K, v: V)
        ensures
            keys_sorted::<K, V>(final(self).kv()),
            lookup(final(self).kv(), k@) == Some(v),
            forall|k2: K::V| k2 != k@ ==> lookup(final(self).kv(), k2) == lookup(old(self).kv(), k2),
            match key_index(old(self).kv(), k@) {
                Some(i) => final(self).kv() == old(self).kv().update(i, (k@, v)),
                None => exists|p: int|
                    0 <= p <= old(self).kv().len() && final(self).kv() == old(self).kv().insert(
                        p,
                        (k@, v),
                    ),
            },
    {
        proof {
            use_type_invariant(&*self);
        }
        let ghost kk = k@;
        let r = self.find(&k);
        let mut entries: Vec<(K, V)> = Vec::new();
        std::mem::swap(&mut entries, &mut self.entries);
        let ghost old_kv = entries@.map_values(|e: (K, V)| (e.0@, e.1));
        assert(old_kv == old(self).kv());
        match r {
            Ok(i) => {
                entries.set(i, (k, v));
                assert(entries@.map_values(|e: (K, V)| (e.0@, e.1)) =~= old_kv.update(
                    i as int,
                    (kk, v),
                ));
                proof {
                    assert(key_index(old_kv, kk) is Some);
                    let j = key_index(old_kv, kk)->0;
                    if j != i {
                        if j < i {
                            K::lemma_key_order(old_kv[j].0, old_kv[i as int].0, old_kv[j].0);
                        } else {
                            K::lemma_key_order(old_kv[i as int].0, old_kv[j].0, old_kv[i as int].0);
                        }
                    }
                }
            },
            Err(i) => {
                entries.insert(i, (k, v));
                assert(entries@.map_values(|e: (K, V)| (e.0@, e.1)) =~= old_kv.insert(
                    i as int,
                    (kk, v),
                ));
            },
        }
        self.entries = entries;
        let pos: usize = match r {
            Ok(i) => i,
            Err(i) => i,
        };
        proof {
            let kv2 = self.kv();
            let okv = old(self).kv();
            let p = pos as int;
            assert(kv2[p].0 == kk);
            lemma_key_index_unique::<K, V>(kv2, p);
            assert forall|k2: K::V| k2 != kk implies lookup(kv2, k2) == lookup(okv, k2) by {
                if exists|j: int| 0 <= j < okv.len() && okv[j].0 == k2 {
                    let j = choose|j: int| 0 <= j < okv.len() && okv[j].0 == k2;
                    lemma_key_index_unique::<K, V>(okv, j);
                    let j2 = if j < p || key_index(okv, kk) is Some { j } else { j + 1 };
                    assert(kv2[j2] == okv[j]);
                    lemma_key_index_unique::<K, V>(kv2, j2);
                } else if exists|j: int| 0 <= j < kv2.len() && kv2[j].0 == k2 {
                    let j = choose|j: int| 0 <= j < kv2.len() && kv2[j].0 == k2;
                    if key_index(okv, kk) is Some {
                        assert(okv[j].0 == k2);
                    } else if j < p {
                        assert(okv[j].0 == k2);
                    } else {
                        assert(okv[j - 1].0 == k2);
                    }
                }
            }
        }
    }

    /// `BTreeMap::remove`.
    pub fn remove(&mut self, k: &K) -> (r: Option<V>)
        ensures
            keys_sorted::<K, V>(final(self).kv()),
            match key_index(old(self).kv(), k@) {
                Some(i) => r == Some(old(self).kv()[i].1) && final(self).kv() == old(self).kv().remove(i),
                None => r is None && final(self).kv() == old(self).kv(),
            },
    {
        proof {
            use_type_invariant(&*self);
        }
        let r = self.find(k);
        match r {
            Ok(i) => {
                let mut entries: Vec<(K, V)> = Vec::new();
                std::mem::swap(&mut entries, &mut self.entries);
                let ghost old_kv = entries@.map_values(|e: (K, V)| (e.0@, e.1));
                proof {
                    let j = key_index(old_kv, k@)->0;
                    if j != i {
                        if j < i {
                            K::lemma_key_order(old_kv[j].0, old_kv[i as int].0, old_kv[j].0);
                        } else {
                            K::lemma_key_order(old_kv[i as int].0, old_kv[j].0, old_kv[i as int].0);
                        }
                    }
                }
                let e = entries.remove(i);
                assert(entries@.map_values(|e: (K, V)| (e.0@, e.1)) =~= old_kv.remove(i as int));
                self.entries = entries;
                Some(e.1)
            },
            Err(_) => None,
        }
    }
}


impl<K: MapKey, T> SortedMap<K, Vec<T>> {
    /// `map.entry(k).or_insert_with(Vec::new).push(x)`.
    pub fn push_to(&mut self, k: K, x: T)
        ensures
            keys_sorted::<K, Vec<T>>(final(self).kv()),
            match key_index(old(self).kv(), k@) {
                Some(i) => final(self).kv().len() == old(self).kv().len() && final(self).kv()[i].0
                    == k@ && final(self).kv()[i].1@ == old(self).kv()[i].1@.push(x) && forall|j: int|
                    0 <= j < old(self).kv().len() && j != i ==> #[trigger] final(self).kv()[j]
                    == old(self).kv()[j],
                None => exists|p: int, w: Vec<T>|
                    0 <= p <= old(self).kv().len() && w@ == seq![x] && final(self).kv()
                        == old(self).kv().insert(p, (k@, w)),
            },
            lookup(final(self).kv(), k@) matches Some(w) && w@ == match lookup(
                old(self).kv(),
                k@,
            ) {
                Some(v) => v@.push(x),
                None => seq![x],
            },
            forall|k2: K::V| k2 != k@ ==> lookup(final(self).kv(), k2) == lookup(old(self).kv(), k2),
    {
        proof {
            use_type_invariant(&*self);
        }
        let ghost kk = k@;
        let r = self.find(&k);
        let mut entries: Vec<(K, Vec<T>)> = Vec::new();
        std::mem::swap(&mut entries, &mut self.entries);
        let ghost old_kv = entries@.map_values(|e: (K, Vec<T>)| (e.0@, e.1));
        match r {
            Ok(i) => {
                let (ek, mut ev) = entries.remove(i);
                ev.push(x);
                let ghost ev_v = ev;
                let ghost ek_v = ek@;
                entries.insert(i, (ek, ev));
                assert(entries@.map_values(|e: (K, Vec<T>)| (e.0@, e.1)) =~= old_kv.update(
                    i as int,
                    (ek_v, ev_v),
                ));
                proof {
                    let j = key_index(old_kv, kk)->0;
                    if j != i {
                        if j < i {
                            K::lemma_key_order(old_kv[j].0, old_kv[i as int].0, old_kv[j].0);
                        } else {
                            K::lemma_key_order(old_kv[i as int].0, old_kv[j].0, old_kv[i as int].0);
                        }
                    }
                    lemma_key_index_unique::<K, Vec<T>>(old_kv, i as int);
                    lemma_lookup_update::<K, Vec<T>>(old_kv, i as int, ev_v);
                }
            },
            Err(i) => {
                let mut w: Vec<T> = Vec::new();
                w.push(x);
                let ghost wv = w;
                entries.insert(i, (k, w));
                assert(entries@.map_values(|e: (K, Vec<T>)| (e.0@, e.1)) =~= old_kv.insert(
                    i as int,
                    (kk, wv),
                ));
                proof {
                    let kv2 = old_kv.insert(i as int, (kk, wv));
                    assert forall|a: int, b: int| 0 <= a < b < kv2.len() implies K::key_lt(
                        #[trigger] kv2[a].0,
                        #[trigger] kv2[b].0,
                    ) by {
                        if a < i && b > i {
                            K::lemma_key_order(kv2[a].0, kk, kv2[b].0);
                        }
                    }
                    lemma_lookup_insert::<K, Vec<T>>(old_kv, i as int, kk, wv);
                }
            },
        }
        self.entries = entries;
    }
}


pub open spec fn key_views<K: View>(v: Seq<K>) -> Seq<K::V> {
    v.map_values(|k: K| k@)
}

/// Strictly increasing in the key order.
pub open spec fn strictly_sorted<K: MapKey>(v: Seq<K::V>) -> bool {
    forall|i: int, j: int| 0 <= i < j < v.len() ==> K::key_lt(#[trigger] v[i], #[trigger] v[j])
}

/// The distinct values of `v` in increasing order (a sort followed by a dedup).
pub fn sorted_distinct<K: MapKey>(v: &Vec<K>) -> (r: Vec<K>)
    ensures
        strictly_sorted::<K>(key_views(r@)),
        forall|x: K::V| key_views(r@).contains(x) <==> key_views(v@).contains(x),
{
    let mut m: SortedMap<K, ()> = SortedMap::new();
    let mut i: usize = 0;
    while i < v.len()
        invariant
            i <= v@.len(),
            forall|x: K::V| (lookup(m.kv(), x) is Some) <==> key_views(v@).take(i as int).contains(x),
        decreases v.len() - i,
    {
        let k = v[i].copy_key();
        let ghost old_kv = m.kv();
        m.insert(k, ());
        proof {
            assert(key_views(v@).take(i + 1) =~= key_views(v@).take(i as int).push(v@[i as int]@));
            assert forall|x: K::V| (lookup(m.kv(), x) is Some) <==> key_views(v@).take(
                i + 1,
            ).contains(x) by {
                let t0 = key_views(v@).take(i as int);
                let t1 = key_views(v@).take(i + 1);
                if x != v@[i as int]@ {
                    assert(lookup(m.kv(), x) == lookup(old_kv, x));
                    if t1.contains(x) {
                        let j = choose|j: int| 0 <= j < t1.len() && #[trigger] t1[j] == x;
                        assert(t0[j] == x);
                        assert(t0.contains(x));
                    }
                    if t0.contains(x) {
                        let j = choose|j: int| 0 <= j < t0.len() && #[trigger] t0[j] == x;
                        assert(t1[j] == x);
                    }
                } else {
                    assert(t1[i as int] == x);
                }
            }
        }
        i = i + 1;
    }
    assert(key_views(v@).take(v@.len() as int) =~= key_views(v@));
    m.lemma_sorted();
    let mut r: Vec<K> = Vec::new();
    let mut j: usize = 0;
    while j < m.len()
        invariant
            j <= m.kv().len(),
            keys_sorted::<K, ()>(m.kv()),
            key_views(r@) == m.kv().take(j as int).map_values(|e: (K::V, ())| e.0),
        decreases m.kv().len() - j,
    {
        let ghost before = r@;
        r.push(m.key_at(j).copy_key());
        assert(key_views(r@) =~= key_views(before).push(m.kv()[j as int].0));
        assert(m.kv().take(j + 1).map_values(|e: (K::V, ())| e.0) =~= m.kv().take(j as int).map_values(
            |e: (K::V, ())| e.0,
        ).push(m.kv()[j as int].0));
        j = j + 1;
    }
    let ghost ks = m.kv().map_values(|e: (K::V, ())| e.0);
    assert(m.kv().take(m.kv().len() as int) =~= m.kv());
    assert(key_views(r@) == ks);
    assert forall|x: K::V| key_views(r@).contains(x) <==> key_views(v@).contains(x) by {
        if key_views(r@).contains(x) {
            let j = choose|j: int| 0 <= j < ks.len() && #[trigger] ks[j] == x;
            lemma_key_index_unique::<K, ()>(m.kv(), j);
        }
        if key_views(v@).contains(x) {
            assert(lookup(m.kv(), x) is Some);
            let j = key_index(m.kv(), x)->0;
            assert(ks[j] == x);
        }
    }
    r
}

} // verus!
