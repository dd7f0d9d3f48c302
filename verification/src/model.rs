//! The target dictionary model owned by the conversion core, together with
//! the ghost models that the contracts speak of. Entries are keyed by term;
//! each entry holds one etymology group per source lexical entry, and each
//! etymology holds at most one sense group per part of speech.
use vstd::prelude::*;

verus! {

/// The fatal conditions of a conversion run. Any of these aborts the whole
/// run; no partial dictionary is ever produced.
#[derive(Clone, Copy, Debug, PartialEq, Eq, Structural)]
pub enum ConvertError {
    /// A pronunciation record carries no transcription text.
    MissingPronunciationText,
    /// Two synsets in the source share one identifier.
    DuplicateSynsetId,
    /// A sense references a synset identifier absent from the synset list.
    DanglingSynsetReference,
    /// A lemma carries a part-of-speech tag outside the defined table.
    InvalidPartOfSpeechTag,
    /// A lemma's tag resolves to the unknown classification, which the
    /// target schema rejects for converted entries.
    UnknownPartOfSpeechRejected,
}

/// The target part-of-speech classification.
#[derive(Clone, Copy, Debug, PartialEq, Eq, Hash, Structural)]
pub enum Pos {
    Noun,
    Verb,
    Adjective,
    Adverb,
    Phrase,
    Conjunction,
    Unknown,
}

/// One consolidated definition per synset: the source definitions merged into
/// one text, the non-empty example texts, and a synonym note when the synset's
/// group holds more than one term.
#[derive(Debug)]
pub struct Definition {
    pub id: Option<String>,
    pub value: String,
    pub examples: Vec<String>,
    pub note: Option<String>,
}

/// The definitions a lexical entry contributes under one part of speech.
#[derive(Debug)]
pub struct SenseGroup {
    pub pos: Pos,
    pub definitions: Vec<Definition>,
}

/// One source lexical entry's contribution to a merged target entry. The
/// identifier is absent on synthetic cross-reference etymologies; the
/// description carries the variant-form listing or the see-also text.
#[derive(Debug)]
pub struct Etymology {
    pub id: Option<String>,
    pub pronunciation: Option<String>,
    pub description: Option<String>,
    pub senses: Vec<SenseGroup>,
}

/// A target entry: a written term, an optional single see-also alias, and the
/// etymology groups folded into it.
#[derive(Debug)]
pub struct Entry {
    pub term: String,
    pub see_also: Option<String>,
    pub etymologies: Vec<Etymology>,
}

#[verifier::ext_equal]
pub ghost struct DefModel {
    pub id: Option<Seq<char>>,
    pub value: Seq<char>,
    pub examples: Seq<Seq<char>>,
    pub note: Option<Seq<char>>,
}

#[verifier::ext_equal]
pub ghost struct SenseModel {
    pub pos: Pos,
    pub definitions: Seq<DefModel>,
}

#[verifier::ext_equal]
pub ghost struct EtyModel {
    pub id: Option<Seq<char>>,
    pub pronunciation: Option<Seq<char>>,
    pub description: Option<Seq<char>>,
    pub senses: Seq<SenseModel>,
}

#[verifier::ext_equal]
pub ghost struct EntryModel {
    pub term: Seq<char>,
    pub see_also: Option<Seq<char>>,
    pub etymologies: Seq<EtyModel>,
}

impl View for Definition {
    type V = DefModel;

    open spec fn view(&self) -> DefModel {
        DefModel {
            id: self.id.deep_view(),
            value: self.value@,
            examples: self.examples.deep_view(),
            note: self.note.deep_view(),
        }
    }
}

impl DeepView for Definition {
    type V = DefModel;

    open spec fn deep_view(&self) -> DefModel {
        self.view()
    }
}

impl View for SenseGroup {
    type V = SenseModel;

    open spec fn view(&self) -> SenseModel {
        SenseModel { pos: self.pos, definitions: self.definitions.deep_view() }
    }
}

impl DeepView for SenseGroup {
    type V = SenseModel;

    open spec fn deep_view(&self) -> SenseModel {
        self.view()
    }
}

impl View for Etymology {
    type V = EtyModel;

    open spec fn view(&self) -> EtyModel {
        EtyModel {
            id: self.id.deep_view(),
            pronunciation: self.pronunciation.deep_view(),
            description: self.description.deep_view(),
            senses: self.senses.deep_view(),
        }
    }
}

impl DeepView for Etymology {
    type V = EtyModel;

    open spec fn deep_view(&self) -> EtyModel {
        self.view()
    }
}

impl View for Entry {
    type V = EntryModel;

    open spec fn view(&self) -> EntryModel {
        EntryModel {
            term: self.term@,
            see_also: self.see_also.deep_view(),
            etymologies: self.etymologies.deep_view(),
        }
    }
}

impl DeepView for Entry {
    type V = EntryModel;

    open spec fn deep_view(&self) -> EntryModel {
        self.view()
    }
}

/// An exact copy of an optional string.
pub fn clone_opt_string(o: &Option<String>) -> (r: Option<String>)
    ensures
        r == *o,
{
    match o {
        Some(s) => Some(s.clone()),
        None => None,
    }
}

/// An exact copy of a list of strings.
pub fn clone_strings(v: &Vec<String>) -> (r: Vec<String>)
    ensures
        r@ == v@,
{
    let mut r: Vec<String> = Vec::new();
    let n = v.len();
    for i in 0..n
        invariant
            n == v@.len(),
            r@ =~= v@.take(i as int),
    {
        r.push(v[i].clone());
        proof {
            assert(r@ =~= v@.take(i + 1));
        }
    }
    proof {
        assert(v@.take(n as int) =~= v@);
    }
    r
}

impl Clone for Definition {
    /// A cloned definition has the same model as the original.
    fn clone(&self) -> (res: Self)
        ensures
            res@ == self@,
    {
        Definition {
            id: clone_opt_string(&self.id),
            value: self.value.clone(),
            examples: clone_strings(&self.examples),
            note: clone_opt_string(&self.note),
        }
    }
}

} // verus!
