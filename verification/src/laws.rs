//! The laws of the conversion, proved over the same models the functions'
//! contracts use: what a synonym group holds, how entries fold, when an
//! alias is set, and which terms the final entry map covers.
use crate::aggregate::{add_ety, agg_model, agg_upto, ety_model, form_adds, form_count};
use crate::crossref::{crossref_upto, see_also_ety, see_also_step};
use crate::defs::def_index_upto;
use crate::groups::{group_add, group_model, lemma_group_add_lookup, syn_add_senses, syn_index,
    syn_index_upto};
use crate::model::{DefModel, EntryModel, EtyModel};
use crate::pipeline::converted_entries;
use crate::table::{first_index, has_key, lemma_first_index, lemma_lookup_push,
    lemma_lookup_update, val_of};
use crate::wn::{LexicalEntry, Lexicon};
use vstd::prelude::*;

verus! {

/// The terms contributed to the group of synset `id` by the first `n` senses
/// of one entry.
pub open spec fn sense_terms(e: LexicalEntry, id: Seq<char>, n: int) -> Seq<Seq<char>>
    decreases n,
{
    if n <= 0 {
        Seq::empty()
    } else {
        sense_terms(e, id, n - 1) + (if e.sense[n - 1].synset@ == id {
            seq![e.lemma.written_form@]
        } else {
            Seq::empty()
        })
    }
}

/// The terms of all senses referencing synset `id` across the first `n`
/// entries, in encounter order, duplicates retained.
pub open spec fn terms_referencing_upto(
    entries: Seq<LexicalEntry>,
    id: Seq<char>,
    n: int,
) -> Seq<Seq<char>>
    decreases n,
{
    if n <= 0 {
        Seq::empty()
    } else {
        terms_referencing_upto(entries, id, n - 1) + sense_terms(
            entries[n - 1],
            id,
            entries[n - 1].sense@.len() as int,
        )
    }
}

/// The encounter-order list of terms whose senses reference synset `id`.
pub open spec fn terms_referencing(entries: Seq<LexicalEntry>, id: Seq<char>) -> Seq<Seq<char>> {
    terms_referencing_upto(entries, id, entries.len() as int)
}

proof fn lemma_syn_senses(
    m: Seq<(Seq<char>, Seq<Seq<char>>)>,
    e: LexicalEntry,
    n: int,
    id: Seq<char>,
)
    ensures
        has_key(syn_add_senses(m, e, n), id) == (has_key(m, id) || sense_terms(e, id, n).len()
            > 0),
        group_model(syn_add_senses(m, e, n), id) == group_model(m, id) + sense_terms(e, id, n),
    decreases n,
{
    if n <= 0 {
        assert(group_model(m, id) + sense_terms(e, id, n) =~= group_model(m, id));
    } else {
        lemma_syn_senses(m, e, n - 1, id);
        let prev = syn_add_senses(m, e, n - 1);
        let k = e.sense@[n - 1].synset@;
        let term = e.lemma.written_form@;
        lemma_group_add_lookup(prev, k, term, id);
        if id == k {
            assert(group_model(group_add(prev, k, term), id) == group_model(prev, id).push(term));
            assert((group_model(m, id) + sense_terms(e, id, n - 1)).push(term) =~= group_model(
                m,
                id,
            ) + sense_terms(e, id, n));
        } else {
            assert(group_model(group_add(prev, k, term), id) == group_model(prev, id));
            assert(group_model(m, id) + sense_terms(e, id, n) =~= group_model(m, id)
                + sense_terms(e, id, n - 1));
        }
    }
}

proof fn lemma_syn_upto(entries: Seq<LexicalEntry>, id: Seq<char>, n: int)
    ensures
        has_key(syn_index_upto(entries, n), id) == (terms_referencing_upto(entries, id, n).len()
            > 0),
        group_model(syn_index_upto(entries, n), id) == terms_referencing_upto(entries, id, n),
    decreases n,
{
    if n <= 0 {
    } else {
        lemma_syn_upto(entries, id, n - 1);
        lemma_syn_senses(
            syn_index_upto(entries, n - 1),
            entries[n - 1],
            entries[n - 1].sense@.len() as int,
            id,
        );
    }
}

/// Synonym grouping: the group under a synset identifier is exactly the
/// encounter-order list of the terms whose senses reference it — one term
/// per referencing sense, duplicates retained, none added or lost.
pub proof fn lemma_synonym_grouping(entries: Seq<LexicalEntry>, id: Seq<char>)
    ensures
        has_key(syn_index(entries), id) == (terms_referencing(entries, id).len() > 0),
        group_model(syn_index(entries), id) == terms_referencing(entries, id),
{
    lemma_syn_upto(entries, id, entries.len() as int);
}

proof fn lemma_add_ety_lookup(
    m: Seq<(Seq<char>, EntryModel)>,
    term: Seq<char>,
    ety: EtyModel,
    q: Seq<char>,
)
    ensures
        has_key(add_ety(m, term, ety), q) == (has_key(m, q) || q == term),
        q == term ==> val_of(add_ety(m, term, ety), q).term == (if has_key(m, q) {
            val_of(m, q).term
        } else {
            q
        }) && val_of(add_ety(m, term, ety), q).see_also == (if has_key(m, q) {
            val_of(m, q).see_also
        } else {
            None
        }) && val_of(add_ety(m, term, ety), q).etymologies == (if has_key(m, q) {
            val_of(m, q).etymologies
        } else {
            Seq::empty()
        }).push(ety),
        q != term && has_key(m, q) ==> val_of(add_ety(m, term, ety), q) == val_of(m, q),
{
    if has_key(m, term) {
        lemma_first_index(m, term);
        let i = first_index(m, term);
        assert(m[i].0 == term);
        let v = EntryModel {
            term: m[i].1.term,
            see_also: m[i].1.see_also,
            etymologies: m[i].1.etymologies.push(ety),
        };
        lemma_lookup_update(m, i, v, q);
        if q != term && has_key(m, q) {
            lemma_first_index(m, q);
            assert(m[first_index(m, q)].0 == q);
        }
    } else {
        lemma_lookup_push(
            m,
            (term, EntryModel { term, see_also: None, etymologies: seq![ety] }),
            q,
        );
        if q == term {
            assert(Seq::<EtyModel>::empty().push(ety) =~= seq![ety]);
        }
    }
}

/// The etymology groups contributed to the entry of term `t` by the first
/// `n` lexical entries, in source order.
pub open spec fn etys_of_term(
    entries: Seq<LexicalEntry>,
    defs: Seq<(Seq<char>, DefModel)>,
    t: Seq<char>,
    n: int,
) -> Seq<EtyModel>
    decreases n,
{
    if n <= 0 {
        Seq::empty()
    } else {
        etys_of_term(entries, defs, t, n - 1) + (if entries[n - 1].lemma.written_form@ == t {
            seq![ety_model(entries[n - 1], defs)]
        } else {
            Seq::empty()
        })
    }
}

proof fn lemma_fold_upto(
    entries: Seq<LexicalEntry>,
    defs: Seq<(Seq<char>, DefModel)>,
    t: Seq<char>,
    n: int,
)
    requires
        0 <= n <= entries.len(),
        agg_upto(entries, defs, n) is Ok,
    ensures
        has_key(agg_upto(entries, defs, n).unwrap().0, t) == (etys_of_term(entries, defs, t, n).len()
            > 0),
        has_key(agg_upto(entries, defs, n).unwrap().0, t) ==> val_of(
            agg_upto(entries, defs, n).unwrap().0,
            t,
        ).term == t && val_of(agg_upto(entries, defs, n).unwrap().0, t).see_also is None && val_of(
            agg_upto(entries, defs, n).unwrap().0,
            t,
        ).etymologies == etys_of_term(entries, defs, t, n),
    decreases n,
{
    if n > 0 {
        lemma_fold_upto(entries, defs, t, n - 1);
        let prev = agg_upto(entries, defs, n - 1).unwrap().0;
        let term = entries[n - 1].lemma.written_form@;
        let ety = ety_model(entries[n - 1], defs);
        lemma_add_ety_lookup(prev, term, ety, t);
        if t == term {
            if has_key(prev, t) {
                assert(etys_of_term(entries, defs, t, n - 1).push(ety) =~= etys_of_term(
                    entries,
                    defs,
                    t,
                    n,
                ));
            } else {
                assert(Seq::<EtyModel>::empty().push(ety) =~= etys_of_term(entries, defs, t, n));
            }
        } else {
            assert(etys_of_term(entries, defs, t, n) =~= etys_of_term(entries, defs, t, n - 1));
        }
    }
}

/// Entry folding: after a successful aggregation, a term has an entry
/// exactly when some lexical entry carries it as its lemma, and that entry
/// holds — in source order — exactly one etymology group per such lexical
/// entry, with no alias set yet.
pub proof fn lemma_entry_folding(
    entries: Seq<LexicalEntry>,
    defs: Seq<(Seq<char>, DefModel)>,
    t: Seq<char>,
)
    requires
        agg_model(entries, defs) is Ok,
    ensures
        has_key(agg_model(entries, defs).unwrap().0, t) == (etys_of_term(
            entries,
            defs,
            t,
            entries.len() as int,
        ).len() > 0),
        has_key(agg_model(entries, defs).unwrap().0, t) ==> val_of(
            agg_model(entries, defs).unwrap().0,
            t,
        ).term == t && val_of(agg_model(entries, defs).unwrap().0, t).see_also is None && val_of(
            agg_model(entries, defs).unwrap().0,
            t,
        ).etymologies == etys_of_term(entries, defs, t, entries.len() as int),
{
    lemma_fold_upto(entries, defs, t, entries.len() as int);
}

/// See-also aliasing: one cross-reference step always appends the see-also
/// etymology to the form's entry — creating it if needed — and sets the
/// single alias exactly when one root term declares the form; every other
/// entry is untouched.
pub proof fn lemma_see_also_alias(
    m: Seq<(Seq<char>, EntryModel)>,
    form: Seq<char>,
    roots: Seq<Seq<char>>,
)
    ensures
        has_key(see_also_step(m, form, roots), form),
        val_of(see_also_step(m, form, roots), form).see_also == (if roots.len() == 1 {
            Some(roots[0])
        } else if has_key(m, form) {
            val_of(m, form).see_also
        } else {
            None
        }),
        val_of(see_also_step(m, form, roots), form).etymologies == (if has_key(m, form) {
            val_of(m, form).etymologies
        } else {
            Seq::empty()
        }).push(see_also_ety(roots)),
        forall|q: Seq<char>|
            q != form ==> has_key(see_also_step(m, form, roots), q) == has_key(m, q),
        forall|q: Seq<char>|
            q != form && has_key(m, q) ==> val_of(see_also_step(m, form, roots), q) == val_of(
                m,
                q,
            ),
{
    let base = if has_key(m, form) {
        m
    } else {
        m.push((form, EntryModel { term: form, see_also: None, etymologies: Seq::empty() }))
    };
    if has_key(m, form) {
        lemma_first_index(m, form);
    } else {
        lemma_lookup_push(
            m,
            (form, EntryModel { term: form, see_also: None, etymologies: Seq::empty() }),
            form,
        );
    }
    let i = first_index(base, form);
    assert(base[i].0 == form);
    let ent = base[i].1;
    let v = EntryModel {
        term: ent.term,
        see_also: if roots.len() == 1 {
            Some(roots[0])
        } else {
            ent.see_also
        },
        etymologies: ent.etymologies.push(see_also_ety(roots)),
    };
    lemma_lookup_update(base, i, v, form);
    assert forall|q: Seq<char>| q != form implies has_key(see_also_step(m, form, roots), q)
        == has_key(m, q) && (has_key(m, q) ==> val_of(see_also_step(m, form, roots), q) == val_of(
        m,
        q,
    )) by {
        lemma_lookup_push(
            m,
            (form, EntryModel { term: form, see_also: None, etymologies: Seq::empty() }),
            q,
        );
        lemma_lookup_update(base, i, v, q);
        if has_key(base, q) && q != form {
            lemma_first_index(base, q);
            assert(base[first_index(base, q)].0 == q);
        }
    }
}

/// Some lexical entry carries `t` as its lemma's written form.
pub open spec fn is_lemma_term(entries: Seq<LexicalEntry>, t: Seq<char>) -> bool {
    exists|i: int| 0 <= i < entries.len() && entries[i].lemma.written_form@ == t
}

/// Some lexical entry declares `t` as an alternate written form.
pub open spec fn is_alternate_form(entries: Seq<LexicalEntry>, t: Seq<char>) -> bool {
    exists|i: int, k: int|
        0 <= i < entries.len() && entries[i].form is Some && 0 <= k
            < entries[i].form.unwrap()@.len() && entries[i].form.unwrap()[k].written_form@ == t
}

proof fn lemma_form_adds_has_key(
    fm: Seq<(Seq<char>, Seq<Seq<char>>)>,
    e: LexicalEntry,
    n: int,
    q: Seq<char>,
)
    requires
        e.form is Some ==> n <= e.form.unwrap()@.len(),
    ensures
        has_key(form_adds(fm, e, n), q) == (has_key(fm, q) || (e.form is Some && exists|k: int|
            0 <= k < n && k < e.form.unwrap()@.len() && e.form.unwrap()[k].written_form@ == q)),
    decreases n,
{
    if e.form is Some && n > 0 {
        lemma_form_adds_has_key(fm, e, n - 1, q);
        lemma_group_add_lookup(
            form_adds(fm, e, n - 1),
            e.form.unwrap()[n - 1].written_form@,
            e.lemma.written_form@,
            q,
        );
        let fs = e.form.unwrap();
        if has_key(form_adds(fm, e, n), q) {
            if has_key(fm, q) {
            } else if exists|k: int|
                0 <= k < n - 1 && k < fs@.len() && fs[k].written_form@ == q {
                let k = choose|k: int| 0 <= k < n - 1 && k < fs@.len() && fs[k].written_form@ == q;
                assert(0 <= k < n && k < fs@.len() && fs[k].written_form@ == q);
            } else {
                assert(q == fs[n - 1].written_form@);
                if n - 1 < fs@.len() {
                    assert(0 <= n - 1 < n && n - 1 < fs@.len() && fs[n - 1].written_form@ == q);
                }
            }
        } else {
            assert forall|k: int|
                !(0 <= k < n && k < fs@.len() && fs[k].written_form@ == q) by {
                if 0 <= k < n - 1 && k < fs@.len() && fs[k].written_form@ == q {
                    assert(has_key(form_adds(fm, e, n - 1), q));
                }
            }
        }
    }
}

proof fn lemma_agg_keys(
    entries: Seq<LexicalEntry>,
    defs: Seq<(Seq<char>, DefModel)>,
    n: int,
    q: Seq<char>,
)
    requires
        0 <= n <= entries.len(),
        agg_upto(entries, defs, n) is Ok,
    ensures
        has_key(agg_upto(entries, defs, n).unwrap().1, q) == (exists|i: int, k: int|
            0 <= i < n && entries[i].form is Some && 0 <= k < entries[i].form.unwrap()@.len()
                && entries[i].form.unwrap()[k].written_form@ == q),
    decreases n,
{
    if n > 0 {
        lemma_agg_keys(entries, defs, n - 1, q);
        let prev = agg_upto(entries, defs, n - 1).unwrap().1;
        let e = entries[n - 1];
        lemma_form_adds_has_key(prev, e, form_count(e), q);
        let cur = agg_upto(entries, defs, n).unwrap().1;
        if has_key(cur, q) {
            if has_key(prev, q) {
                let (i, k) = choose|i: int, k: int|
                    0 <= i < n - 1 && entries[i].form is Some && 0 <= k
                        < entries[i].form.unwrap()@.len()
                        && entries[i].form.unwrap()[k].written_form@ == q;
                assert(0 <= i < n && entries[i].form is Some && 0 <= k
                    < entries[i].form.unwrap()@.len()
                    && entries[i].form.unwrap()[k].written_form@ == q);
            } else {
                let k = choose|k: int|
                    0 <= k < form_count(e) && k < e.form.unwrap()@.len()
                        && e.form.unwrap()[k].written_form@ == q;
                assert(0 <= n - 1 < n && entries[n - 1].form is Some && 0 <= k
                    < entries[n - 1].form.unwrap()@.len()
                    && entries[n - 1].form.unwrap()[k].written_form@ == q);
            }
        } else {
            assert forall|i: int, k: int|
                !(0 <= i < n && entries[i].form is Some && 0 <= k
                    < entries[i].form.unwrap()@.len()
                    && entries[i].form.unwrap()[k].written_form@ == q) by {
                if 0 <= i < n - 1 && entries[i].form is Some && 0 <= k
                    < entries[i].form.unwrap()@.len() {
                    assert(has_key(prev, q) || entries[i].form.unwrap()[k].written_form@ != q);
                }
            }
        }
    }
}

proof fn lemma_crossref_keys(
    m: Seq<(Seq<char>, EntryModel)>,
    fm: Seq<(Seq<char>, Seq<Seq<char>>)>,
    n: int,
    q: Seq<char>,
)
    requires
        0 <= n <= fm.len(),
    ensures
        has_key(crossref_upto(m, fm, n), q) == (has_key(m, q) || exists|j: int|
            0 <= j < n && fm[j].0 == q),
    decreases n,
{
    if n > 0 {
        lemma_crossref_keys(m, fm, n - 1, q);
        lemma_see_also_alias(crossref_upto(m, fm, n - 1), fm[n - 1].0, fm[n - 1].1);
        if q == fm[n - 1].0 {
            assert(has_key(crossref_upto(m, fm, n), q));
            assert(exists|j: int| 0 <= j < n && fm[j].0 == q);
        }
    }
}

/// Round-trip term coverage: on a successful run, a written form has a key
/// in the final entry map exactly when it occurs in the source as a lemma or
/// as a declared alternate form. Together with the distinct keys the
/// pipeline guarantees, every such term appears as exactly one key.
pub proof fn lemma_round_trip_coverage(lex: Lexicon, t: Seq<char>)
    requires
        converted_entries(lex) is Ok,
    ensures
        has_key(converted_entries(lex).unwrap(), t) == (is_lemma_term(lex.lexical_entry@, t)
            || is_alternate_form(lex.lexical_entry@, t)),
{
    let entries = lex.lexical_entry@;
    let defs = def_index_upto(lex.synset@, syn_index(entries), lex.synset@.len() as int);
    let p = agg_model(entries, defs).unwrap();
    lemma_entry_folding(entries, defs, t);
    lemma_agg_keys(entries, defs, entries.len() as int, t);
    lemma_crossref_keys(p.0, p.1, p.1.len() as int, t);
    lemma_etys_nonempty_iff(entries, defs, t, entries.len() as int);
}

proof fn lemma_etys_nonempty_iff(
    entries: Seq<LexicalEntry>,
    defs: Seq<(Seq<char>, DefModel)>,
    t: Seq<char>,
    n: int,
)
    requires
        0 <= n <= entries.len(),
    ensures
        (etys_of_term(entries, defs, t, n).len() > 0) == (exists|i: int|
            0 <= i < n && entries[i].lemma.written_form@ == t),
    decreases n,
{
    if n > 0 {
        lemma_etys_nonempty_iff(entries, defs, t, n - 1);
        if etys_of_term(entries, defs, t, n).len() > 0 {
            if entries[n - 1].lemma.written_form@ == t {
                assert(exists|i: int| 0 <= i < n && entries[i].lemma.written_form@ == t);
            } else {
                let i = choose|i: int| 0 <= i < n - 1 && entries[i].lemma.written_form@ == t;
                assert(0 <= i < n && entries[i].lemma.written_form@ == t);
            }
        }
    }
}

} // verus!
