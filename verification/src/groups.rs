//! Grouping written values under written keys in encounter order: the
//! synonym indexer builds synset-identifier-to-term groups this way, and the
//! entry aggregator builds the form-to-root-terms index with the same step.
//! Repeated values are retained, never deduplicated.
use crate::table::{distinct_keys, first_index, has_key, lemma_first_index, lemma_lookup_push,
    lemma_lookup_update, val_of, Table};
use crate::wn::LexicalEntry;
use vstd::prelude::*;

verus! {

/// A group map's list under a key: empty when the key is absent.
pub open spec fn group_model(m: Seq<(Seq<char>, Seq<Seq<char>>)>, k: Seq<char>) -> Seq<
    Seq<char>,
> {
    if has_key(m, k) {
        val_of(m, k)
    } else {
        Seq::empty()
    }
}

/// Appends `v` to the group under `k`, creating the group on first sight.
pub open spec fn group_add(
    m: Seq<(Seq<char>, Seq<Seq<char>>)>,
    k: Seq<char>,
    v: Seq<char>,
) -> Seq<(Seq<char>, Seq<Seq<char>>)> {
    if has_key(m, k) {
        m.update(first_index(m, k), (k, val_of(m, k).push(v)))
    } else {
        m.push((k, seq![v]))
    }
}

/// How one grouping step changes lookup: the touched group grows by the
/// value, every other group is untouched.
pub proof fn lemma_group_add_lookup(
    m: Seq<(Seq<char>, Seq<Seq<char>>)>,
    k: Seq<char>,
    v: Seq<char>,
    q: Seq<char>,
)
    ensures
        has_key(group_add(m, k, v), q) == (has_key(m, q) || q == k),
        q == k ==> val_of(group_add(m, k, v), q) == group_model(m, q).push(v),
        q != k && has_key(m, q) ==> val_of(group_add(m, k, v), q) == val_of(m, q),
{
    if has_key(m, k) {
        lemma_first_index(m, k);
        let i = first_index(m, k);
        assert(m[i].0 == k);
        lemma_lookup_update(m, i, val_of(m, k).push(v), q);
        if q != k && has_key(m, q) {
            lemma_first_index(m, q);
            assert(m[first_index(m, q)].0 == q);
        }
    } else {
        lemma_lookup_push(m, (k, seq![v]), q);
    }
}

/// A grouping step keeps the keys distinct.
pub proof fn lemma_group_add_distinct(
    m: Seq<(Seq<char>, Seq<Seq<char>>)>,
    k: Seq<char>,
    v: Seq<char>,
)
    requires
        distinct_keys(m),
    ensures
        distinct_keys(group_add(m, k, v)),
{
    if has_key(m, k) {
        lemma_first_index(m, k);
        let m2 = group_add(m, k, v);
        assert(forall|j: int| 0 <= j < m.len() ==> m2[j].0 == m[j].0);
    }
}

/// The synonym index after folding in the first `n` senses of one entry:
/// each sense appends the entry's term to the group of its synset.
pub open spec fn syn_add_senses(
    m: Seq<(Seq<char>, Seq<Seq<char>>)>,
    e: LexicalEntry,
    n: int,
) -> Seq<(Seq<char>, Seq<Seq<char>>)>
    decreases n,
{
    if n <= 0 {
        m
    } else {
        group_add(syn_add_senses(m, e, n - 1), e.sense[n - 1].synset@, e.lemma.written_form@)
    }
}

/// The synonym index over the first `n` lexical entries.
pub open spec fn syn_index_upto(entries: Seq<LexicalEntry>, n: int) -> Seq<
    (Seq<char>, Seq<Seq<char>>),
>
    decreases n,
{
    if n <= 0 {
        Seq::empty()
    } else {
        syn_add_senses(
            syn_index_upto(entries, n - 1),
            entries[n - 1],
            entries[n - 1].sense@.len() as int,
        )
    }
}

/// The full synonym index: synset identifier to the terms that share the
/// synset, in encounter order over entries and their senses.
pub open spec fn syn_index(entries: Seq<LexicalEntry>) -> Seq<(Seq<char>, Seq<Seq<char>>)> {
    syn_index_upto(entries, entries.len() as int)
}

impl Table<Vec<String>> {
    /// Appends one value to the group stored at position `i`.
    pub fn append_at(&mut self, i: usize, v: String)
        requires
            i < old(self)@.len(),
        ensures
            final(self)@ == old(self)@.update(
                i as int,
                (old(self)@[i as int].0, old(self)@[i as int].1.push(v@)),
            ),
    {
        let (k, mut g) = self.remove_at(i);
        let ghost gd = g.deep_view();
        g.push(v);
        proof {
            assert(g.deep_view() =~= gd.push(v@));
        }
        self.insert_at(i, k, g);
        proof {
            assert(self@ =~= old(self)@.update(
                i as int,
                (old(self)@[i as int].0, old(self)@[i as int].1.push(v@)),
            ));
        }
    }
}

/// Builds the synonym index: scans all lexical entries and their senses once
/// and appends each entry's term to the group of each referenced synset.
pub fn build_synonym_index(entries: &Vec<LexicalEntry>) -> (m: Table<Vec<String>>)
    ensures
        m@ == syn_index(entries@),
        distinct_keys(m@),
{
    let mut m: Table<Vec<String>> = Table::new();
    let n = entries.len();
    for i in 0..n
        invariant
            n == entries@.len(),
            m@ =~= syn_index_upto(entries@, i as int),
            distinct_keys(m@),
    {
        let e = &entries[i];
        let term = &e.lemma.written_form;
        let sn = e.sense.len();
        for j in 0..sn
            invariant
                n == entries@.len(),
                i < n,
                *e == entries@[i as int],
                term@ == e.lemma.written_form@,
                sn == e.sense@.len(),
                m@ =~= syn_add_senses(syn_index_upto(entries@, i as int), *e, j as int),
                distinct_keys(m@),
        {
            let id = &e.sense[j].synset;
            let ghost pre = m@;
            match m.index_of(id) {
                Some(ix) => {
                    m.append_at(ix, term.clone());
                },
                None => {
                    let mut g: Vec<String> = Vec::new();
                    g.push(term.clone());
                    proof {
                        assert(g.deep_view() =~= seq![term@]);
                    }
                    m.push_new(id.clone(), g);
                },
            }
            proof {
                assert(m@ =~= group_add(pre, id@, term@));
                lemma_group_add_distinct(pre, id@, term@);
                assert(id@ == e.sense@[j as int].synset@);
                assert(syn_add_senses(syn_index_upto(entries@, i as int), *e, j + 1) == group_add(
                    syn_add_senses(syn_index_upto(entries@, i as int), *e, j as int),
                    e.sense@[j as int].synset@,
                    e.lemma.written_form@,
                ));
                assert(m@ =~= syn_add_senses(syn_index_upto(entries@, i as int), *e, j + 1));
            }
        }
        proof {
            assert(m@ =~= syn_index_upto(entries@, i + 1));
        }
    }
    proof {
        assert(m@ =~= syn_index(entries@));
    }
    m
}

} // verus!
