//! The whole conversion pipeline: synonym index, definition index, entry
//! aggregation, cross-reference resolution. The run is all-or-nothing: any
//! fatal condition yields an error and no dictionary value at all, so
//! nothing partial can ever reach a writer.
use crate::aggregate::{agg_model, build_entries};
use crate::crossref::{crossref_upto, resolve_see_also};
use crate::defs::{build_definition_index, def_index_upto, has_duplicate_synset};
use crate::groups::{build_synonym_index, syn_index};
use crate::model::{ConvertError, Entry, EntryModel};
use crate::table::{distinct_keys, Table};
use crate::wn::Lexicon;
use vstd::prelude::*;

verus! {

/// The assembled target dictionary: a display name and the term-keyed
/// entries. This is the sole owned output of the conversion core.
pub struct Dictionary {
    pub name: String,
    pub entries: Table<Entry>,
}

/// What the whole pipeline produces for a lexicon: the final entry map, or
/// the first fatal condition in pipeline order.
pub open spec fn converted_entries(lex: Lexicon) -> Result<
    Seq<(Seq<char>, EntryModel)>,
    ConvertError,
> {
    let syn = syn_index(lex.lexical_entry@);
    if has_duplicate_synset(lex.synset@) {
        Err(ConvertError::DuplicateSynsetId)
    } else {
        let defs = def_index_upto(lex.synset@, syn, lex.synset@.len() as int);
        match agg_model(lex.lexical_entry@, defs) {
            Err(er) => Err(er),
            Ok(p) => Ok(crossref_upto(p.0, p.1, p.1.len() as int)),
        }
    }
}

/// Runs the conversion core on a loaded lexicon. Succeeds exactly when no
/// fatal condition holds of the source records; on success the dictionary
/// carries the lexicon's label as its name and the fully resolved entry map,
/// with every term keyed exactly once.
pub fn convert_lexicon(lexicon: &Lexicon) -> (r: Result<Dictionary, ConvertError>)
    ensures
        converted_entries(*lexicon) matches Ok(m) ==> r matches Ok(d) && d.entries@ == m
            && d.name@ == lexicon.label@ && distinct_keys(d.entries@),
        converted_entries(*lexicon) matches Err(er) ==> r matches Err(er2) && er2 == er,
{
    let syn = build_synonym_index(&lexicon.lexical_entry);
    let defs = match build_definition_index(&lexicon.synset, &syn) {
        Ok(t) => t,
        Err(er) => {
            return Err(er);
        },
    };
    let folded = match build_entries(&lexicon.lexical_entry, &defs) {
        Ok(t) => t,
        Err(er) => {
            return Err(er);
        },
    };
    let (mut em, fm) = folded;
    resolve_see_also(&mut em, &fm);
    Ok(Dictionary { name: lexicon.label.clone(), entries: em })
}

} // verus!
