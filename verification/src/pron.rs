//! The pronunciation resolver: an optional list of pronunciation records
//! becomes an optional single summary string. Every record must carry
//! transcription text; a record with a variety label is written
//! `variety: text`, the records are joined with `"; "`.
use crate::model::ConvertError;
use crate::text::{join, join_model, lemma_join_push};
use crate::wn::Pronunciation;
use vstd::prelude::*;
use vstd::string::StringExecFns;

verus! {

/// The summary fragment of one pronunciation record.
pub open spec fn pron_item_model(p: Pronunciation) -> Seq<char>
    recommends
        p.text is Some,
{
    match p.variety {
        Some(v) => v@ + ": "@ + p.text.unwrap()@,
        None => p.text.unwrap()@,
    }
}

/// Every record of the list carries transcription text.
pub open spec fn all_have_text(s: Seq<Pronunciation>) -> bool {
    forall|i: int| 0 <= i < s.len() ==> s[i].text is Some
}

/// The summary fragments of a list of records, in order.
pub open spec fn pron_items_model(s: Seq<Pronunciation>) -> Seq<Seq<char>> {
    s.map_values(|q: Pronunciation| pron_item_model(q))
}

/// The resolved summary: absent when the list is absent, else the records'
/// fragments joined with `"; "`.
pub open spec fn pron_model(p: Option<Vec<Pronunciation>>) -> Option<Seq<char>> {
    match p {
        None => None,
        Some(v) => Some(join_model(pron_items_model(v@), "; "@)),
    }
}

/// Resolves an optional list of pronunciation records into an optional
/// summary string; a record without transcription text is a fatal input.
pub fn build_pronunciation(pronunciation: &Option<Vec<Pronunciation>>) -> (r: Result<
    Option<String>,
    ConvertError,
>)
    ensures
        (r is Ok) == (pronunciation is None || all_have_text(pronunciation.unwrap()@)),
        r is Err ==> r == Err::<Option<String>, ConvertError>(
            ConvertError::MissingPronunciationText,
        ),
        r matches Ok(o) ==> o.deep_view() == pron_model(*pronunciation),
{
    match pronunciation {
        None => Ok(None),
        Some(ps) => {
            let mut items: Vec<String> = Vec::new();
            let n = ps.len();
            for i in 0..n
                invariant
                    n == ps@.len(),
                    *pronunciation == Some(*ps),
                    forall|j: int| 0 <= j < i ==> ps@[j].text is Some,
                    items.deep_view() =~= pron_items_model(ps@.take(i as int)),
            {
                let p = &ps[i];
                match &p.text {
                    None => {
                        proof {
                            assert(ps@[i as int].text is None);
                            assert(!all_have_text(ps@));
                        }
                        return Err(ConvertError::MissingPronunciationText);
                    },
                    Some(text) => {
                        let item = match &p.variety {
                            Some(variety) => {
                                let mut s = variety.clone();
                                s.append(": ");
                                s.append(text.as_str());
                                s
                            },
                            None => text.clone(),
                        };
                        proof {
                            assert(item@ == pron_item_model(ps@[i as int]));
                        }
                        let ghost pre = items.deep_view();
                        items.push(item);
                        proof {
                            assert(items.deep_view() =~= pre.push(item@));
                            assert(ps@.take(i + 1) =~= ps@.take(i as int).push(ps@[i as int]));
                            assert(items.deep_view() =~= pron_items_model(ps@.take(i + 1)));
                        }
                    },
                }
            }
            proof {
                assert(ps@.take(n as int) =~= ps@);
            }
            Ok(Some(join(&items, "; ")))
        },
    }
}

} // verus!
