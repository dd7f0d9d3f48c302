//! An order-preserving association table keyed by strings. The conversion
//! phases use it for every mapping they build: synset id to synonym group,
//! synset id to consolidated definition, written form to root terms, and term
//! to target entry. Its view is the sequence of (key view, value view) pairs
//! in insertion order, so contracts can speak both of lookup and of order.
use vstd::prelude::*;

verus! {

/// Whether some pair of the sequence carries the key `k`.
pub open spec fn has_key<V>(m: Seq<(Seq<char>, V)>, k: Seq<char>) -> bool {
    exists|i: int| 0 <= i < m.len() && m[i].0 == k
}

/// The position of the first pair carrying `k` (meaningful when `has_key`).
pub open spec fn first_index<V>(m: Seq<(Seq<char>, V)>, k: Seq<char>) -> int
    decreases m.len(),
{
    if m.len() == 0 {
        0
    } else if m[0].0 == k {
        0
    } else {
        1 + first_index(m.drop_first(), k)
    }
}

/// The value stored under `k` (meaningful when `has_key`).
pub open spec fn val_of<V>(m: Seq<(Seq<char>, V)>, k: Seq<char>) -> V
    recommends
        has_key(m, k),
{
    m[first_index(m, k)].1
}

/// No key occurs twice.
pub open spec fn distinct_keys<V>(m: Seq<(Seq<char>, V)>) -> bool {
    forall|i: int, j: int| 0 <= i < j < m.len() ==> m[i].0 != m[j].0
}

/// `first_index` lands on the first pair carrying the key.
pub proof fn lemma_first_index<V>(m: Seq<(Seq<char>, V)>, k: Seq<char>)
    requires
        has_key(m, k),
    ensures
        0 <= first_index(m, k) < m.len(),
        m[first_index(m, k)].0 == k,
        forall|j: int| 0 <= j < first_index(m, k) ==> m[j].0 != k,
    decreases m.len(),
{
    if m.len() > 0 && m[0].0 != k {
        let i = choose|i: int| 0 <= i < m.len() && m[i].0 == k;
        assert(m.drop_first()[i - 1] == m[i]);
        lemma_first_index(m.drop_first(), k);
        assert forall|j: int| 0 <= j < first_index(m, k) implies m[j].0 != k by {
            if j > 0 {
                assert(m.drop_first()[j - 1] == m[j]);
            }
        }
    }
}

/// A position that carries the key, with no earlier carrier, is `first_index`.
pub proof fn lemma_first_index_unique<V>(m: Seq<(Seq<char>, V)>, k: Seq<char>, j: int)
    requires
        0 <= j < m.len(),
        m[j].0 == k,
        forall|jj: int| 0 <= jj < j ==> m[jj].0 != k,
    ensures
        first_index(m, k) == j,
{
    lemma_first_index(m, k);
}

/// How pushing a pair changes lookup: other keys are untouched, and a fresh
/// key is found at the end.
pub proof fn lemma_lookup_push<V>(m: Seq<(Seq<char>, V)>, p: (Seq<char>, V), k: Seq<char>)
    ensures
        has_key(m.push(p), k) == (has_key(m, k) || p.0 == k),
        has_key(m, k) ==> first_index(m.push(p), k) == first_index(m, k) && val_of(m.push(p), k)
            == val_of(m, k),
        !has_key(m, k) && p.0 == k ==> first_index(m.push(p), k) == m.len() && val_of(
            m.push(p),
            k,
        ) == p.1,
    decreases m.len(),
{
    let mp = m.push(p);
    assert(mp[m.len() as int] == p);
    assert forall|i: int| 0 <= i < m.len() implies mp[i] == m[i] by {}
    if has_key(m, k) {
        lemma_first_index(m, k);
        lemma_first_index_unique(mp, k, first_index(m, k));
    } else if p.0 == k {
        lemma_first_index_unique(mp, k, m.len() as int);
    }
}

/// How updating the value at one position, keeping its key, changes lookup.
pub proof fn lemma_lookup_update<V>(m: Seq<(Seq<char>, V)>, i: int, v: V, k: Seq<char>)
    requires
        0 <= i < m.len(),
    ensures
        has_key(m.update(i, (m[i].0, v)), k) == has_key(m, k),
        first_index(m.update(i, (m[i].0, v)), k) == first_index(m, k),
        has_key(m, k) ==> val_of(m.update(i, (m[i].0, v)), k) == (if first_index(m, k) == i {
            v
        } else {
            val_of(m, k)
        }),
{
    let m2 = m.update(i, (m[i].0, v));
    assert(m2.len() == m.len());
    assert(forall|j: int| 0 <= j < m.len() ==> m2[j].0 == m[j].0);
    if has_key(m, k) {
        lemma_first_index(m, k);
        lemma_first_index_unique(m2, k, first_index(m, k));
    } else {
        assert(!has_key(m2, k));
        lemma_first_index_eq_when_keys_eq(m, m2, k);
    }
}

/// `first_index` depends only on the keys.
proof fn lemma_first_index_eq_when_keys_eq<V>(
    m1: Seq<(Seq<char>, V)>,
    m2: Seq<(Seq<char>, V)>,
    k: Seq<char>,
)
    requires
        m1.len() == m2.len(),
        forall|j: int| 0 <= j < m1.len() ==> m1[j].0 == m2[j].0,
    ensures
        first_index(m1, k) == first_index(m2, k),
    decreases m1.len(),
{
    if m1.len() > 0 && m1[0].0 != k {
        assert forall|j: int| 0 <= j < m1.drop_first().len() implies m1.drop_first()[j].0
            == m2.drop_first()[j].0 by {
            assert(m1.drop_first()[j] == m1[j + 1]);
            assert(m2.drop_first()[j] == m2[j + 1]);
        }
        lemma_first_index_eq_when_keys_eq(m1.drop_first(), m2.drop_first(), k);
    }
}

/// An order-preserving map from written keys to values.
pub struct Table<V> {
    pub pairs: Vec<(String, V)>,
}

impl<V: DeepView> View for Table<V> {
    type V = Seq<(Seq<char>, <V as DeepView>::V)>;

    open spec fn view(&self) -> Seq<(Seq<char>, <V as DeepView>::V)> {
        self.pairs.deep_view()
    }
}

impl<V: DeepView> Table<V> {
    pub fn new() -> (t: Table<V>)
        ensures
            t@ == Seq::<(Seq<char>, <V as DeepView>::V)>::empty(),
    {
        let t = Table { pairs: Vec::new() };
        proof {
            assert(t@ =~= Seq::<(Seq<char>, <V as DeepView>::V)>::empty());
        }
        t
    }

    pub fn len(&self) -> (n: usize)
        ensures
            n == self@.len(),
    {
        self.pairs.len()
    }

    /// The position of the first pair under `key`, if the key is present.
    pub fn index_of(&self, key: &String) -> (r: Option<usize>)
        ensures
            match r {
                Some(i) => i < self@.len() && self@[i as int].0 == key@ && i as int == first_index(
                    self@,
                    key@,
                ),
                None => !has_key(self@, key@),
            },
    {
        let n = self.pairs.len();
        for j in 0..n
            invariant
                n == self.pairs.len(),
                forall|jj: int| 0 <= jj < j ==> self@[jj].0 != key@,
        {
            if self.pairs[j].0 == *key {
                proof {
                    lemma_first_index_unique(self@, key@, j as int);
                }
                return Some(j);
            }
        }
        None
    }

    /// A borrow of the value under `key`, if the key is present.
    pub fn get(&self, key: &String) -> (r: Option<&V>)
        ensures
            match r {
                Some(v) => has_key(self@, key@) && v.deep_view() == val_of(self@, key@),
                None => !has_key(self@, key@),
            },
    {
        match self.index_of(key) {
            Some(i) => {
                let p = &self.pairs[i];
                Some(&p.1)
            },
            None => None,
        }
    }

    pub fn contains_key(&self, key: &String) -> (r: bool)
        ensures
            r == has_key(self@, key@),
    {
        self.index_of(key).is_some()
    }

    /// Appends a pair under a key not yet present.
    pub fn push_new(&mut self, key: String, val: V)
        requires
            !has_key(old(self)@, key@),
        ensures
            final(self)@ == old(self)@.push((key@, val.deep_view())),
    {
        self.pairs.push((key, val));
        proof {
            assert(self@ =~= old(self)@.push((key@, val.deep_view())));
        }
    }

    /// Takes the pair at position `i` out of the table.
    pub fn remove_at(&mut self, i: usize) -> (r: (String, V))
        requires
            i < old(self)@.len(),
        ensures
            r.0@ == old(self)@[i as int].0,
            r.1.deep_view() == old(self)@[i as int].1,
            final(self)@ == old(self)@.remove(i as int),
    {
        let r = self.pairs.remove(i);
        proof {
            assert(self@ =~= old(self)@.remove(i as int));
        }
        r
    }

    /// Puts a pair back at position `i`.
    pub fn insert_at(&mut self, i: usize, key: String, val: V)
        requires
            i <= old(self)@.len(),
        ensures
            final(self)@ == old(self)@.insert(i as int, (key@, val.deep_view())),
    {
        self.pairs.insert(i, (key, val));
        proof {
            assert(self@ =~= old(self)@.insert(i as int, (key@, val.deep_view())));
        }
    }
}

} // verus!
