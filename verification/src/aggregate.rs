//! The entry aggregator: folds every lexical entry into the term-keyed
//! target entry map. Each source entry yields exactly one etymology group —
//! the source format has no etymology information, so one entry is one
//! etymology by convention — and entries sharing a term share one target
//! entry. Alongside, every declared alternate written form is recorded in
//! the form-to-root-terms index for the cross-reference pass.
use crate::groups::{group_add, lemma_group_add_distinct};
use crate::model::{ConvertError, Definition, DefModel, Entry, EntryModel, EtyModel, Etymology,
    Pos, SenseGroup, SenseModel};
use crate::pos::{parse_pos, pos_of_tag};
use crate::pron::{all_have_text, build_pronunciation, pron_model};
use crate::table::{distinct_keys, first_index, has_key, val_of, Table};
use crate::text::{join, join_model};
use crate::wn::{Form, LexicalEntry, Sense};
use vstd::prelude::*;

verus! {

/// The first fatal condition a lexical entry raises, checked in conversion
/// order: an invalid tag, a tag resolving to unknown, a pronunciation record
/// without text, a sense referencing a synset absent from the definition
/// index.
pub open spec fn entry_check(e: LexicalEntry, defs: Seq<(Seq<char>, DefModel)>) -> Option<
    ConvertError,
> {
    if pos_of_tag(e.lemma.part_of_speech@) is None {
        Some(ConvertError::InvalidPartOfSpeechTag)
    } else if pos_of_tag(e.lemma.part_of_speech@) == Some(Pos::Unknown) {
        Some(ConvertError::UnknownPartOfSpeechRejected)
    } else if !(e.lemma.pronunciation is None || all_have_text(e.lemma.pronunciation.unwrap()@)) {
        Some(ConvertError::MissingPronunciationText)
    } else if exists|j: int| 0 <= j < e.sense@.len() && !has_key(defs, e.sense@[j].synset@) {
        Some(ConvertError::DanglingSynsetReference)
    } else {
        None
    }
}

/// The consolidated definitions an entry's senses pull in, in sense order.
pub open spec fn sense_defs(senses: Seq<Sense>, defs: Seq<(Seq<char>, DefModel)>) -> Seq<
    DefModel,
> {
    senses.map_values(|s: Sense| val_of(defs, s.synset@))
}

/// The written views of an entry's declared alternate forms.
pub open spec fn forms_views(f: Option<Vec<Form>>) -> Seq<Seq<char>> {
    match f {
        None => Seq::empty(),
        Some(v) => v@.map_values(|x: Form| x.written_form@),
    }
}

/// The variant-forms listing stashed in the etymology's description: the
/// term itself followed by every alternate form, comma-joined.
pub open spec fn desc_model(e: LexicalEntry) -> Seq<char> {
    join_model(seq![e.lemma.written_form@] + forms_views(e.form), ", "@)
}

/// The etymology group one source entry contributes.
pub open spec fn ety_model(e: LexicalEntry, defs: Seq<(Seq<char>, DefModel)>) -> EtyModel {
    EtyModel {
        id: Some(e.id@),
        pronunciation: pron_model(e.lemma.pronunciation),
        description: Some(desc_model(e)),
        senses: seq![
            SenseModel {
                pos: pos_of_tag(e.lemma.part_of_speech@).unwrap(),
                definitions: sense_defs(e.sense@, defs),
            }
        ],
    }
}

/// Appends an etymology to the entry under `term`, creating the entry on
/// first sight of the term.
pub open spec fn add_ety(
    m: Seq<(Seq<char>, EntryModel)>,
    term: Seq<char>,
    ety: EtyModel,
) -> Seq<(Seq<char>, EntryModel)> {
    if has_key(m, term) {
        let i = first_index(m, term);
        m.update(
            i,
            (
                term,
                EntryModel {
                    term: m[i].1.term,
                    see_also: m[i].1.see_also,
                    etymologies: m[i].1.etymologies.push(ety),
                },
            ),
        )
    } else {
        m.push((term, EntryModel { term, see_also: None, etymologies: seq![ety] }))
    }
}

/// The form index after recording the first `n` alternate forms of one
/// entry: each form maps to the root terms that declare it.
pub open spec fn form_adds(
    fm: Seq<(Seq<char>, Seq<Seq<char>>)>,
    e: LexicalEntry,
    n: int,
) -> Seq<(Seq<char>, Seq<Seq<char>>)>
    decreases n,
{
    if e.form is None || n <= 0 {
        fm
    } else {
        group_add(
            form_adds(fm, e, n - 1),
            e.form.unwrap()[n - 1].written_form@,
            e.lemma.written_form@,
        )
    }
}

/// How many alternate forms an entry declares.
pub open spec fn form_count(e: LexicalEntry) -> int {
    match e.form {
        None => 0,
        Some(v) => v@.len() as int,
    }
}

/// The aggregation over the first `n` lexical entries: the term-keyed entry
/// map and the form index, or the first fatal condition hit.
pub open spec fn agg_upto(
    entries: Seq<LexicalEntry>,
    defs: Seq<(Seq<char>, DefModel)>,
    n: int,
) -> Result<(Seq<(Seq<char>, EntryModel)>, Seq<(Seq<char>, Seq<Seq<char>>)>), ConvertError>
    decreases n,
{
    if n <= 0 {
        Ok((Seq::empty(), Seq::empty()))
    } else {
        match agg_upto(entries, defs, n - 1) {
            Err(er) => Err(er),
            Ok(p) => match entry_check(entries[n - 1], defs) {
                Some(er) => Err(er),
                None => Ok(
                    (
                        add_ety(
                            p.0,
                            entries[n - 1].lemma.written_form@,
                            ety_model(entries[n - 1], defs),
                        ),
                        form_adds(p.1, entries[n - 1], form_count(entries[n - 1])),
                    ),
                ),
            },
        }
    }
}

/// The aggregation over all lexical entries.
pub open spec fn agg_model(entries: Seq<LexicalEntry>, defs: Seq<(Seq<char>, DefModel)>) -> Result<
    (Seq<(Seq<char>, EntryModel)>, Seq<(Seq<char>, Seq<Seq<char>>)>),
    ConvertError,
> {
    agg_upto(entries, defs, entries.len() as int)
}

/// Once the fold hits a fatal condition, the condition is the fold's result.
pub proof fn lemma_agg_err_propagates(
    entries: Seq<LexicalEntry>,
    defs: Seq<(Seq<char>, DefModel)>,
    k: int,
    n: int,
)
    requires
        0 <= k <= n,
        agg_upto(entries, defs, k) is Err,
    ensures
        agg_upto(entries, defs, n) == agg_upto(entries, defs, k),
    decreases n - k,
{
    if k < n {
        lemma_agg_err_propagates(entries, defs, k, n - 1);
    }
}

/// Builds the target entry map and the form index from all lexical entries
/// and the completed definition index. Every source entry yields exactly one
/// appended etymology; any fatal condition aborts the whole pass.
#[verifier::loop_isolation(false)]
pub fn build_entries(entries: &Vec<LexicalEntry>, defs: &Table<Definition>) -> (r: Result<
    (Table<Entry>, Table<Vec<String>>),
    ConvertError,
>)
    ensures
        agg_model(entries@, defs@) matches Ok(p) ==> r matches Ok(t) && t.0@ == p.0 && t.1@ == p.1
            && distinct_keys(t.0@) && distinct_keys(t.1@),
        agg_model(entries@, defs@) matches Err(er) ==> r matches Err(er2) && er2 == er,
{
    let mut em: Table<Entry> = Table::new();
    let mut fm: Table<Vec<String>> = Table::new();
    let n = entries.len();
    for i in 0..n
        invariant
            agg_upto(entries@, defs@, i as int) matches Ok(p) && p.0 == em@ && p.1 == fm@,
            distinct_keys(em@),
            distinct_keys(fm@),
    {
        let e = &entries[i];
        let term = &e.lemma.written_form;

        let pos = match parse_pos(&e.lemma.part_of_speech) {
            Ok(p) => p,
            Err(er) => {
                proof {
                    assert(entry_check(entries@[i as int], defs@) == Some(er));
                    lemma_agg_err_propagates(entries@, defs@, i + 1, n as int);
                }
                return Err(er);
            },
        };
        if pos == Pos::Unknown {
            proof {
                assert(entry_check(entries@[i as int], defs@) == Some(
                    ConvertError::UnknownPartOfSpeechRejected,
                ));
                lemma_agg_err_propagates(entries@, defs@, i + 1, n as int);
            }
            return Err(ConvertError::UnknownPartOfSpeechRejected);
        }
        let pron = match build_pronunciation(&e.lemma.pronunciation) {
            Ok(p) => p,
            Err(er) => {
                proof {
                    assert(entry_check(entries@[i as int], defs@) == Some(er));
                    lemma_agg_err_propagates(entries@, defs@, i + 1, n as int);
                }
                return Err(er);
            },
        };

        let mut definitions: Vec<Definition> = Vec::new();
        let sn = e.sense.len();
        for j in 0..sn
            invariant
                sn == e.sense@.len(),
                forall|j2: int| 0 <= j2 < j ==> has_key(defs@, e.sense@[j2].synset@),
                definitions.deep_view() =~= sense_defs(e.sense@.take(j as int), defs@),
        {
            let s = &e.sense[j];
            match defs.get(&s.synset) {
                None => {
                    proof {
                        assert(!has_key(defs@, e.sense@[j as int].synset@));
                        assert(entry_check(entries@[i as int], defs@) == Some(
                            ConvertError::DanglingSynsetReference,
                        ));
                        lemma_agg_err_propagates(entries@, defs@, i + 1, n as int);
                    }
                    return Err(ConvertError::DanglingSynsetReference);
                },
                Some(d) => {
                    let ghost pre = definitions.deep_view();
                    definitions.push(d.clone());
                    proof {
                        assert(definitions.deep_view() =~= pre.push(val_of(
                            defs@,
                            e.sense@[j as int].synset@,
                        )));
                        assert(e.sense@.take(j + 1) =~= e.sense@.take(j as int).push(
                            e.sense@[j as int],
                        ));
                        assert(definitions.deep_view() =~= sense_defs(e.sense@.take(j + 1), defs@));
                    }
                },
            }
        }
        proof {
            assert(e.sense@.take(sn as int) =~= e.sense@);
        }
        let mut sense_groups: Vec<SenseGroup> = Vec::new();
        sense_groups.push(SenseGroup { pos, definitions });

        let mut parts: Vec<String> = Vec::new();
        parts.push(term.clone());
        let ghost fm_entry_start = fm@;
        match &e.form {
            None => {},
            Some(fs) => {
                let fcount = fs.len();
                for k in 0..fcount
                    invariant
                        fcount == fs@.len(),
                        e.form == Some(*fs),
                        parts.deep_view() =~= seq![term@] + forms_views(e.form).take(k as int),
                        fm@ =~= form_adds(fm_entry_start, *e, k as int),
                        distinct_keys(fm@),
                {
                    let f = &fs[k];
                    let ghost parts_pre = parts.deep_view();
                    parts.push(f.written_form.clone());
                    let ghost fm_pre = fm@;
                    match fm.index_of(&f.written_form) {
                        Some(ix) => {
                            fm.append_at(ix, term.clone());
                        },
                        None => {
                            let mut g: Vec<String> = Vec::new();
                            g.push(term.clone());
                            proof {
                                assert(g.deep_view() =~= seq![term@]);
                            }
                            fm.push_new(f.written_form.clone(), g);
                        },
                    }
                    proof {
                        assert(parts.deep_view() =~= parts_pre.push(f.written_form@));
                        assert(forms_views(e.form).take(k + 1) =~= forms_views(e.form).take(
                            k as int,
                        ).push(f.written_form@));
                        assert(parts.deep_view() =~= seq![term@] + forms_views(e.form).take(k + 1));
                        assert(fm@ =~= group_add(fm_pre, f.written_form@, term@));
                        lemma_group_add_distinct(fm_pre, f.written_form@, term@);
                        assert(fm@ =~= form_adds(fm_entry_start, *e, k + 1));
                    }
                }
                proof {
                    assert(forms_views(e.form).take(fcount as int) =~= forms_views(e.form));
                }
            },
        }
        proof {
            assert(parts.deep_view() =~= seq![term@] + forms_views(e.form));
            assert(fm@ =~= form_adds(fm_entry_start, *e, form_count(*e)));
        }
        let description = join(&parts, ", ");

        let ety = Etymology {
            id: Some(e.id.clone()),
            pronunciation: pron,
            description: Some(description),
            senses: sense_groups,
        };
        proof {
            let target = ety_model(*e, defs@);
            assert(ety@.senses[0] =~= target.senses[0]);
            assert(ety@.senses =~= target.senses);
            assert(ety@ =~= target);
        }

        let ghost em_pre = em@;
        match em.index_of(term) {
            Some(ix) => {
                let (key, mut ent) = em.remove_at(ix);
                let ghost ent_pre = ent.deep_view();
                ent.etymologies.push(ety);
                em.insert_at(ix, key, ent);
                proof {
                    let newm = add_ety(em_pre, term@, ety_model(*e, defs@));
                    assert(ent.etymologies.deep_view() =~= ent_pre.etymologies.push(
                        ety_model(*e, defs@),
                    ));
                    assert(ent.deep_view() =~= newm[ix as int].1);
                    assert(em@ =~= newm);
                    assert(forall|j2: int| 0 <= j2 < em@.len() ==> em@[j2].0 == em_pre[j2].0);
                }
            },
            None => {
                let mut ent = Entry {
                    term: term.clone(),
                    see_also: None,
                    etymologies: Vec::new(),
                };
                ent.etymologies.push(ety);
                em.push_new(term.clone(), ent);
                proof {
                    let newm = add_ety(em_pre, term@, ety_model(*e, defs@));
                    assert(ent.etymologies.deep_view() =~= seq![ety_model(*e, defs@)]);
                    assert(ent.deep_view() =~= newm[em_pre.len() as int].1);
                    assert(em@ =~= newm);
                }
            },
        }
        proof {
            assert(entry_check(entries@[i as int], defs@) is None);
            assert(agg_upto(entries@, defs@, i + 1) matches Ok(p) && p.0 == em@ && p.1 == fm@);
        }
    }
    proof {
        assert(agg_upto(entries@, defs@, n as int) matches Ok(p) && p.0 == em@ && p.1 == fm@);
    }
    Ok((em, fm))
}

} // verus!
