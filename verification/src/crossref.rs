//! The cross-reference resolver: for every recorded (form, root terms) pair
//! it appends a synthetic see-also etymology to the form's entry — creating
//! an empty entry when the form has none — and sets the entry's single alias
//! exactly when one root term declares the form.
use crate::model::{Entry, EntryModel, EtyModel, Etymology};
use crate::table::{distinct_keys, first_index, has_key, lemma_lookup_push, Table};
use crate::text::{join, join_model};
use vstd::prelude::*;
use vstd::string::StringExecFns;

verus! {

/// The synthetic etymology carrying a see-also line: no identifier, no
/// pronunciation, no senses, only the descriptive text.
pub open spec fn see_also_ety(roots: Seq<Seq<char>>) -> EtyModel {
    EtyModel {
        id: None,
        pronunciation: None,
        description: Some("See also: "@ + join_model(roots, ", "@)),
        senses: Seq::empty(),
    }
}

/// One cross-reference step: ensure an entry exists under `form`, append the
/// see-also etymology, and set the alias exactly when one root declares the
/// form.
pub open spec fn see_also_step(
    m: Seq<(Seq<char>, EntryModel)>,
    form: Seq<char>,
    roots: Seq<Seq<char>>,
) -> Seq<(Seq<char>, EntryModel)> {
    let base = if has_key(m, form) {
        m
    } else {
        m.push((form, EntryModel { term: form, see_also: None, etymologies: Seq::empty() }))
    };
    let i = first_index(base, form);
    let ent = base[i].1;
    base.update(
        i,
        (
            form,
            EntryModel {
                term: ent.term,
                see_also: if roots.len() == 1 {
                    Some(roots[0])
                } else {
                    ent.see_also
                },
                etymologies: ent.etymologies.push(see_also_ety(roots)),
            },
        ),
    )
}

/// Adds the see-also information of one variant form to the entry map.
#[verifier::loop_isolation(false)]
pub fn add_see_also(entries: &mut Table<Entry>, form: &String, root_forms: &Vec<String>)
    requires
        distinct_keys(old(entries)@),
    ensures
        final(entries)@ == see_also_step(old(entries)@, form@, root_forms.deep_view()),
        distinct_keys(final(entries)@),
{
    let mut desc = "See also: ".to_owned();
    let joined = join(root_forms, ", ");
    desc.append(joined.as_str());
    let ety = Etymology {
        id: None,
        pronunciation: None,
        description: Some(desc),
        senses: Vec::new(),
    };
    proof {
        assert(ety@.senses =~= see_also_ety(root_forms.deep_view()).senses);
        assert(ety@ =~= see_also_ety(root_forms.deep_view()));
    }
    let ghost m0 = entries@;
    let ix: usize = match entries.index_of(form) {
        Some(ix) => ix,
        None => {
            let ent = Entry { term: form.clone(), see_also: None, etymologies: Vec::new() };
            proof {
                assert(ent.deep_view() =~= EntryModel {
                    term: form@,
                    see_also: None,
                    etymologies: Seq::empty(),
                });
            }
            let ix = entries.len();
            entries.push_new(form.clone(), ent);
            proof {
                lemma_lookup_push(
                    m0,
                    (
                        form@,
                        EntryModel { term: form@, see_also: None, etymologies: Seq::empty() },
                    ),
                    form@,
                );
            }
            ix
        },
    };
    let ghost base = entries@;
    proof {
        assert(has_key(base, form@));
        assert(ix as int == first_index(base, form@));
        assert(distinct_keys(base)) by {
            if !has_key(m0, form@) {
                assert(forall|j: int| 0 <= j < m0.len() ==> base[j] == m0[j]);
            }
        }
    }
    let (key, mut ent) = entries.remove_at(ix);
    let ghost ent_pre = ent.deep_view();
    ent.etymologies.push(ety);
    if root_forms.len() == 1 {
        ent.see_also = Some(root_forms[0].clone());
    }
    entries.insert_at(ix, key, ent);
    proof {
        let target = see_also_step(old(entries)@, form@, root_forms.deep_view());
        assert(ent.etymologies.deep_view() =~= ent_pre.etymologies.push(
            see_also_ety(root_forms.deep_view()),
        ));
        assert(ent.deep_view() =~= target[ix as int].1);
        assert(entries@ =~= target);
        assert(forall|j: int| 0 <= j < entries@.len() ==> entries@[j].0 == base[j].0);
    }
}

/// The entry map after the first `n` recorded forms have been resolved.
pub open spec fn crossref_upto(
    m: Seq<(Seq<char>, EntryModel)>,
    fm: Seq<(Seq<char>, Seq<Seq<char>>)>,
    n: int,
) -> Seq<(Seq<char>, EntryModel)>
    decreases n,
{
    if n <= 0 {
        m
    } else {
        see_also_step(crossref_upto(m, fm, n - 1), fm[n - 1].0, fm[n - 1].1)
    }
}

/// Resolves every recorded (form, root terms) pair into the entry map.
#[verifier::loop_isolation(false)]
pub fn resolve_see_also(entries: &mut Table<Entry>, fm: &Table<Vec<String>>)
    requires
        distinct_keys(old(entries)@),
    ensures
        final(entries)@ == crossref_upto(old(entries)@, fm@, fm@.len() as int),
        distinct_keys(final(entries)@),
{
    let n = fm.pairs.len();
    for i in 0..n
        invariant
            n == fm@.len(),
            entries@ =~= crossref_upto(old(entries)@, fm@, i as int),
            distinct_keys(entries@),
    {
        let p = &fm.pairs[i];
        add_see_also(entries, &p.0, &p.1);
        proof {
            assert(fm@[i as int].0 == p.0@);
            assert(fm@[i as int].1 == p.1.deep_view());
            assert(entries@ =~= crossref_upto(old(entries)@, fm@, i + 1));
        }
    }
}

} // verus!
