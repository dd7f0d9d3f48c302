//! Source records of a WordNet-style lexicon: a lexical resource holds one
//! lexicon, which holds lexical entries (a lemma plus senses and optional
//! alternate written forms) and synsets (shared-meaning groups carrying
//! definitions and examples). The conversion pipeline reads these records and
//! never mutates them.
use vstd::prelude::*;

verus! {

#[derive(Debug)]
pub struct LexicalResource {
    pub xmlns_dc: String,
    pub text: Option<String>,
    pub lexicon: Lexicon,
}

#[derive(Debug)]
pub struct Lexicon {
    pub id: String,
    pub label: String,
    pub language: String,
    pub email: String,
    pub license: String,
    pub version: String,
    pub url: String,
    pub text: Option<String>,
    pub lexical_entry: Vec<LexicalEntry>,
    pub synset: Vec<Synset>,
    pub syntactic_behaviour: Vec<SyntacticBehaviour>,
}

#[derive(Debug)]
pub struct LexicalEntry {
    pub id: String,
    pub text: Option<String>,
    pub lemma: Lemma,
    pub sense: Vec<Sense>,
    pub form: Option<Vec<Form>>,
}

#[derive(Debug)]
pub struct Lemma {
    pub written_form: String,
    pub part_of_speech: String,
    pub text: Option<String>,
    pub pronunciation: Option<Vec<Pronunciation>>,
}

#[derive(Debug)]
pub struct Pronunciation {
    pub variety: Option<String>,
    pub text: Option<String>,
}

#[derive(Debug)]
pub struct Sense {
    pub id: String,
    pub synset: String,
    pub subcat: Option<String>,
    pub adjposition: Option<String>,
    pub text: Option<String>,
    pub sense_relation: Option<Vec<SenseRelation>>,
}

#[derive(Debug)]
pub struct SenseRelation {
    pub rel_type: String,
    pub target: String,
    pub dc_type: Option<String>,
}

#[derive(Debug)]
pub struct Form {
    pub written_form: String,
}

#[derive(Debug)]
pub struct Synset {
    pub id: String,
    pub ili: String,
    pub members: String,
    pub part_of_speech: String,
    pub lexfile: String,
    pub dc_source: Option<String>,
    pub text: Option<String>,
    pub definition: Vec<String>,
    pub synset_relation: Option<Vec<SynsetRelation>>,
    pub example: Option<Vec<Example>>,
    pub ilidefinition: Option<String>,
}

#[derive(Debug)]
pub struct SynsetRelation {
    pub rel_type: String,
    pub target: String,
}

#[derive(Debug)]
pub struct Example {
    pub dc_source: Option<String>,
    pub text: Option<String>,
}

#[derive(Debug)]
pub struct SyntacticBehaviour {
    pub id: String,
    pub subcategorization_frame: String,
}

} // verus!
