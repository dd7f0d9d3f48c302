//! The definition builder: one consolidated definition per synset. The
//! source definitions are alternate phrasings of one sense, so they are
//! joined with `"; "` into one text; examples carrying non-empty text are
//! copied in source order; a synonym note is attached exactly when the
//! synset's group holds more than one term.
use crate::groups::group_model;
use crate::model::{ConvertError, DefModel, Definition};
use crate::table::{distinct_keys, Table};
use crate::text::{join, join_model};
use crate::wn::{Example, Synset};
use vstd::prelude::*;
use vstd::string::StringExecFns;

verus! {

/// The example texts kept from a synset's example list: those with text that
/// is present and non-empty, in source order.
pub open spec fn examples_model(ex: Seq<Example>) -> Seq<Seq<char>>
    decreases ex.len(),
{
    if ex.len() == 0 {
        Seq::empty()
    } else {
        let rest = examples_model(ex.drop_last());
        if ex.last().text is Some && ex.last().text.unwrap()@.len() > 0 {
            rest.push(ex.last().text.unwrap()@)
        } else {
            rest
        }
    }
}

/// The example texts of an optional example list.
pub open spec fn opt_examples_model(ex: Option<Vec<Example>>) -> Seq<Seq<char>> {
    match ex {
        None => Seq::empty(),
        Some(v) => examples_model(v@),
    }
}

/// The text of a synonym note over a group of terms.
pub open spec fn note_model(synonyms: Seq<Seq<char>>) -> Seq<char> {
    "Synonyms: "@ + join_model(synonyms, ", "@)
}

/// The consolidated definition of a synset given its synonym group.
pub open spec fn def_model(synset: Synset, group: Seq<Seq<char>>) -> DefModel {
    DefModel {
        id: Some(synset.id@),
        value: join_model(synset.definition.deep_view(), "; "@),
        examples: opt_examples_model(synset.example),
        note: if group.len() > 1 {
            Some(note_model(group))
        } else {
            None
        },
    }
}

/// Builds the text of a synonym note: `"Synonyms: "` followed by the group's
/// terms joined with `", "`.
pub fn build_synonym_note(synonyms: &Vec<String>) -> (r: String)
    ensures
        r@ == note_model(synonyms.deep_view()),
{
    let mut s = "Synonyms: ".to_owned();
    let terms = join(synonyms, ", ");
    s.append(terms.as_str());
    s
}

/// Builds the consolidated definition of one synset from the synset's record
/// and its synonym group.
pub fn build_definition(synset: &Synset, synonyms: &Vec<String>) -> (r: Definition)
    ensures
        r@ == def_model(*synset, synonyms.deep_view()),
{
    let value = join(&synset.definition, "; ");
    let mut examples: Vec<String> = Vec::new();
    match &synset.example {
        None => {},
        Some(exs) => {
            let n = exs.len();
            for i in 0..n
                invariant
                    n == exs@.len(),
                    examples.deep_view() =~= examples_model(exs@.take(i as int)),
            {
                let e = &exs[i];
                match &e.text {
                    Some(t) => {
                        if !t.as_str().is_empty() {
                            examples.push(t.clone());
                        }
                    },
                    None => {},
                }
                proof {
                    assert(exs@.take(i + 1).drop_last() =~= exs@.take(i as int));
                    assert(exs@.take(i + 1).last() == exs@[i as int]);
                    assert(examples.deep_view() =~= examples_model(exs@.take(i + 1)));
                }
            }
            proof {
                assert(exs@.take(n as int) =~= exs@);
            }
        },
    }
    let note = if synonyms.len() > 1 {
        Some(build_synonym_note(synonyms))
    } else {
        None
    };
    Definition { id: Some(synset.id.clone()), value, examples, note }
}

/// Two synsets of the list share one identifier.
pub open spec fn has_duplicate_synset(synsets: Seq<Synset>) -> bool {
    exists|i: int, j: int| 0 <= i < j < synsets.len() && synsets[i].id@ == synsets[j].id@
}

/// The definition index over the first `n` synsets: each synset's identifier
/// mapped to its consolidated definition, in source order.
pub open spec fn def_index_upto(
    synsets: Seq<Synset>,
    syn: Seq<(Seq<char>, Seq<Seq<char>>)>,
    n: int,
) -> Seq<(Seq<char>, DefModel)>
    decreases n,
{
    if n <= 0 {
        Seq::empty()
    } else {
        def_index_upto(synsets, syn, n - 1).push(
            (synsets[n - 1].id@, def_model(synsets[n - 1], group_model(syn, synsets[n - 1].id@))),
        )
    }
}

/// Builds the synset-identifier-to-consolidated-definition index. A synset
/// identifier occurring twice in the source is a fatal condition, never a
/// silent merge.
pub fn build_definition_index(synsets: &Vec<Synset>, syn: &Table<Vec<String>>) -> (r: Result<
    Table<Definition>,
    ConvertError,
>)
    ensures
        (r is Ok) == !has_duplicate_synset(synsets@),
        r is Err ==> r == Err::<Table<Definition>, ConvertError>(ConvertError::DuplicateSynsetId),
        r matches Ok(t) ==> t@ == def_index_upto(synsets@, syn@, synsets@.len() as int)
            && distinct_keys(t@),
{
    let mut t: Table<Definition> = Table::new();
    let n = synsets.len();
    for i in 0..n
        invariant
            n == synsets@.len(),
            t@ =~= def_index_upto(synsets@, syn@, i as int),
            t@.len() == i,
            forall|j: int| 0 <= j < i ==> t@[j].0 == synsets@[j].id@,
            forall|i1: int, i2: int|
                0 <= i1 < i2 < i ==> synsets@[i1].id@ != synsets@[i2].id@,
            distinct_keys(t@),
    {
        let id = &synsets[i].id;
        if t.contains_key(id) {
            proof {
                let j = choose|j: int| 0 <= j < t@.len() && t@[j].0 == id@;
                assert(synsets@[j].id@ == synsets@[i as int].id@);
            }
            return Err(ConvertError::DuplicateSynsetId);
        }
        proof {
            assert forall|j: int| 0 <= j < i implies synsets@[j].id@ != synsets@[i as int].id@ by {
                assert(t@[j].0 == synsets@[j].id@);
            }
        }
        let d = match syn.get(id) {
            Some(g) => build_definition(&synsets[i], g),
            None => {
                let empty_group: Vec<String> = Vec::new();
                proof {
                    assert(empty_group.deep_view() =~= Seq::<Seq<char>>::empty());
                }
                build_definition(&synsets[i], &empty_group)
            },
        };
        let ghost pre = t@;
        t.push_new(id.clone(), d);
        proof {
            assert(t@ =~= def_index_upto(synsets@, syn@, i + 1));
        }
    }
    proof {
        assert(synsets@.take(n as int) =~= synsets@);
        if has_duplicate_synset(synsets@) {
            let (i1, i2) = choose|i1: int, i2: int|
                0 <= i1 < i2 < synsets@.len() && synsets@[i1].id@ == synsets@[i2].id@;
            assert(false);
        }
    }
    Ok(t)
}

} // verus!
