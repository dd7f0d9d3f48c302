use enwn2odict::defs::{build_definition, build_synonym_note};
use enwn2odict::groups::build_synonym_index;
use enwn2odict::model::{ConvertError, Pos};
use enwn2odict::pipeline::convert_lexicon;
use enwn2odict::pos::parse_pos;
use enwn2odict::pron::build_pronunciation;
use enwn2odict::wn::{Example, Form, Lemma, LexicalEntry, Lexicon, Pronunciation, Sense, Synset};

fn lemma(term: &str, pos: &str) -> Lemma {
    Lemma {
        written_form: term.to_string(),
        part_of_speech: pos.to_string(),
        text: None,
        pronunciation: None,
    }
}

fn sense(id: &str, synset: &str) -> Sense {
    Sense {
        id: id.to_string(),
        synset: synset.to_string(),
        subcat: None,
        adjposition: None,
        text: None,
        sense_relation: None,
    }
}

fn entry(id: &str, term: &str, pos: &str, senses: Vec<Sense>) -> LexicalEntry {
    LexicalEntry { id: id.to_string(), text: None, lemma: lemma(term, pos), sense: senses, form: None }
}

fn synset(id: &str, defs: &[&str]) -> Synset {
    Synset {
        id: id.to_string(),
        ili: String::new(),
        members: String::new(),
        part_of_speech: "n".to_string(),
        lexfile: String::new(),
        dc_source: None,
        text: None,
        definition: defs.iter().map(|d| d.to_string()).collect(),
        synset_relation: None,
        example: None,
        ilidefinition: None,
    }
}

fn lexicon(entries: Vec<LexicalEntry>, synsets: Vec<Synset>) -> Lexicon {
    Lexicon {
        id: "test-lexicon".to_string(),
        label: "Test Lexicon".to_string(),
        language: "en".to_string(),
        email: String::new(),
        license: String::new(),
        version: String::new(),
        url: String::new(),
        text: None,
        lexical_entry: entries,
        synset: synsets,
        syntactic_behaviour: Vec::new(),
    }
}

#[test]
fn synonym_grouping_encounter_order() {
    let entries = vec![
        entry("w1", "big", "a", vec![sense("w1-1", "s1")]),
        entry("w2", "large", "a", vec![sense("w2-1", "s1")]),
    ];
    let index = build_synonym_index(&entries);
    let group = index.get(&"s1".to_string()).expect("group exists");
    assert_eq!(group, &vec!["big".to_string(), "large".to_string()]);
}

#[test]
fn synonym_grouping_retains_duplicates() {
    let entries = vec![entry(
        "w1",
        "run",
        "v",
        vec![sense("w1-1", "s1"), sense("w1-2", "s1")],
    )];
    let index = build_synonym_index(&entries);
    let group = index.get(&"s1".to_string()).expect("group exists");
    assert_eq!(group, &vec!["run".to_string(), "run".to_string()]);
}

#[test]
fn definition_merge_joins_texts() {
    let s = synset("s1", &["a whale", "a large marine mammal"]);
    let d = build_definition(&s, &vec!["whale".to_string()]);
    assert_eq!(d.value, "a whale; a large marine mammal");
    assert_eq!(d.id, Some("s1".to_string()));
}

#[test]
fn definition_drops_empty_examples() {
    let mut s = synset("s1", &["a whale"]);
    s.example = Some(vec![
        Example { dc_source: None, text: Some(String::new()) },
        Example { dc_source: None, text: None },
        Example { dc_source: None, text: Some("saw a whale".to_string()) },
    ]);
    let d = build_definition(&s, &vec!["whale".to_string()]);
    assert_eq!(d.examples, vec!["saw a whale".to_string()]);
}

#[test]
fn definition_empty_example_list_when_only_empty_text() {
    let mut s = synset("s1", &["a whale"]);
    s.example = Some(vec![Example { dc_source: None, text: Some(String::new()) }]);
    let d = build_definition(&s, &vec!["whale".to_string()]);
    assert!(d.examples.is_empty());
}

#[test]
fn synonym_note_threshold() {
    let s = synset("s1", &["of great size"]);
    let single = build_definition(&s, &vec!["big".to_string()]);
    assert_eq!(single.note, None);
    let pair = build_definition(&s, &vec!["big".to_string(), "large".to_string()]);
    assert_eq!(pair.note, Some("Synonyms: big, large".to_string()));
}

#[test]
fn synonym_note_text() {
    let note = build_synonym_note(&vec!["big".to_string(), "large".to_string()]);
    assert_eq!(note, "Synonyms: big, large");
}

#[test]
fn pos_mapping_table() {
    assert_eq!(parse_pos(&"n".to_string()), Ok(Pos::Noun));
    assert_eq!(parse_pos(&"v".to_string()), Ok(Pos::Verb));
    assert_eq!(parse_pos(&"a".to_string()), Ok(Pos::Adjective));
    assert_eq!(parse_pos(&"s".to_string()), Ok(Pos::Adjective));
    assert_eq!(parse_pos(&"r".to_string()), Ok(Pos::Adverb));
    assert_eq!(parse_pos(&"z".to_string()), Ok(Pos::Phrase));
    assert_eq!(parse_pos(&"c".to_string()), Ok(Pos::Conjunction));
    assert_eq!(parse_pos(&"p".to_string()), Ok(Pos::Unknown));
    assert_eq!(parse_pos(&"x".to_string()), Ok(Pos::Unknown));
    assert_eq!(parse_pos(&"u".to_string()), Ok(Pos::Unknown));
}

#[test]
fn pos_outside_table_is_fatal() {
    assert_eq!(parse_pos(&"q".to_string()), Err(ConvertError::InvalidPartOfSpeechTag));
    assert_eq!(parse_pos(&"N".to_string()), Err(ConvertError::InvalidPartOfSpeechTag));
    assert_eq!(parse_pos(&"".to_string()), Err(ConvertError::InvalidPartOfSpeechTag));
    assert_eq!(parse_pos(&"nn".to_string()), Err(ConvertError::InvalidPartOfSpeechTag));
}

#[test]
fn pronunciation_absent_list_is_absent_summary() {
    assert_eq!(build_pronunciation(&None), Ok(None));
}

#[test]
fn pronunciation_summary_joins_records() {
    let records = vec![
        Pronunciation { variety: Some("GB".to_string()), text: Some("r-uhn".to_string()) },
        Pronunciation { variety: None, text: Some("run".to_string()) },
    ];
    assert_eq!(
        build_pronunciation(&Some(records)),
        Ok(Some("GB: r-uhn; run".to_string()))
    );
}

#[test]
fn pronunciation_missing_text_is_fatal() {
    let records = vec![Pronunciation { variety: Some("GB".to_string()), text: None }];
    assert_eq!(
        build_pronunciation(&Some(records)),
        Err(ConvertError::MissingPronunciationText)
    );
}

#[test]
fn entry_folding_same_term_two_etymologies() {
    let lex = lexicon(
        vec![
            entry("w1", "run", "n", vec![sense("w1-1", "s1")]),
            entry("w2", "run", "v", vec![sense("w2-1", "s2")]),
        ],
        vec![synset("s1", &["a sprint"]), synset("s2", &["to sprint"])],
    );
    let dict = convert_lexicon(&lex).expect("conversion succeeds");
    assert_eq!(dict.name, "Test Lexicon");
    assert_eq!(dict.entries.len(), 1);
    let run = dict.entries.get(&"run".to_string()).expect("entry exists");
    assert_eq!(run.term, "run");
    assert_eq!(run.etymologies.len(), 2);
    assert_eq!(run.etymologies[0].id, Some("w1".to_string()));
    assert_eq!(run.etymologies[0].senses.len(), 1);
    assert_eq!(run.etymologies[0].senses[0].pos, Pos::Noun);
    assert_eq!(run.etymologies[0].senses[0].definitions.len(), 1);
    assert_eq!(run.etymologies[0].senses[0].definitions[0].value, "a sprint");
    assert_eq!(run.etymologies[1].id, Some("w2".to_string()));
    assert_eq!(run.etymologies[1].senses.len(), 1);
    assert_eq!(run.etymologies[1].senses[0].pos, Pos::Verb);
    assert_eq!(run.etymologies[1].senses[0].definitions[0].value, "to sprint");
}

#[test]
fn etymology_description_lists_variant_forms() {
    let mut e = entry("w1", "run", "v", vec![sense("w1-1", "s1")]);
    e.form = Some(vec![
        Form { written_form: "ran".to_string() },
        Form { written_form: "running".to_string() },
    ]);
    let lex = lexicon(vec![e], vec![synset("s1", &["to sprint"])]);
    let dict = convert_lexicon(&lex).expect("conversion succeeds");
    let run = dict.entries.get(&"run".to_string()).expect("entry exists");
    assert_eq!(
        run.etymologies[0].description,
        Some("run, ran, running".to_string())
    );
}

#[test]
fn see_also_alias_for_unique_root() {
    let mut e = entry("w1", "run", "v", vec![sense("w1-1", "s1")]);
    e.form = Some(vec![Form { written_form: "ran".to_string() }]);
    let lex = lexicon(vec![e], vec![synset("s1", &["to sprint"])]);
    let dict = convert_lexicon(&lex).expect("conversion succeeds");
    let ran = dict.entries.get(&"ran".to_string()).expect("stub entry exists");
    assert_eq!(ran.see_also, Some("run".to_string()));
    assert_eq!(ran.etymologies.len(), 1);
    assert_eq!(ran.etymologies[0].id, None);
    assert_eq!(ran.etymologies[0].pronunciation, None);
    assert_eq!(ran.etymologies[0].description, Some("See also: run".to_string()));
    assert!(ran.etymologies[0].senses.is_empty());
}

#[test]
fn see_also_no_alias_for_ambiguous_form() {
    let mut e1 = entry("w1", "run", "v", vec![sense("w1-1", "s1")]);
    e1.form = Some(vec![Form { written_form: "ran".to_string() }]);
    let mut e2 = entry("w2", "ran2", "v", vec![sense("w2-1", "s1")]);
    e2.form = Some(vec![Form { written_form: "ran".to_string() }]);
    let lex = lexicon(vec![e1, e2], vec![synset("s1", &["to sprint"])]);
    let dict = convert_lexicon(&lex).expect("conversion succeeds");
    let ran = dict.entries.get(&"ran".to_string()).expect("stub entry exists");
    assert_eq!(ran.see_also, None);
    assert_eq!(ran.etymologies.len(), 1);
    assert_eq!(
        ran.etymologies[0].description,
        Some("See also: run, ran2".to_string())
    );
}

#[test]
fn fatal_dangling_synset_reference() {
    let lex = lexicon(
        vec![entry("w1", "run", "v", vec![sense("w1-1", "missing")])],
        vec![synset("s1", &["to sprint"])],
    );
    assert_eq!(convert_lexicon(&lex).err(), Some(ConvertError::DanglingSynsetReference));
}

#[test]
fn fatal_duplicate_synset_id() {
    let lex = lexicon(
        vec![entry("w1", "run", "v", vec![sense("w1-1", "s1")])],
        vec![synset("s1", &["to sprint"]), synset("s1", &["again"])],
    );
    assert_eq!(convert_lexicon(&lex).err(), Some(ConvertError::DuplicateSynsetId));
}

#[test]
fn fatal_invalid_pos_tag() {
    let lex = lexicon(
        vec![entry("w1", "run", "verb", vec![sense("w1-1", "s1")])],
        vec![synset("s1", &["to sprint"])],
    );
    assert_eq!(convert_lexicon(&lex).err(), Some(ConvertError::InvalidPartOfSpeechTag));
}

#[test]
fn fatal_unknown_pos_rejected() {
    let lex = lexicon(
        vec![entry("w1", "of", "p", vec![sense("w1-1", "s1")])],
        vec![synset("s1", &["relation word"])],
    );
    assert_eq!(convert_lexicon(&lex).err(), Some(ConvertError::UnknownPartOfSpeechRejected));
}

#[test]
fn fatal_missing_pronunciation_text() {
    let mut e = entry("w1", "run", "v", vec![sense("w1-1", "s1")]);
    e.lemma.pronunciation = Some(vec![Pronunciation { variety: None, text: None }]);
    let lex = lexicon(vec![e], vec![synset("s1", &["to sprint"])]);
    assert_eq!(convert_lexicon(&lex).err(), Some(ConvertError::MissingPronunciationText));
}

#[test]
fn round_trip_term_coverage() {
    let mut e1 = entry("w1", "run", "v", vec![sense("w1-1", "s1")]);
    e1.form = Some(vec![Form { written_form: "ran".to_string() }]);
    let e2 = entry("w2", "big", "a", vec![sense("w2-1", "s2")]);
    let lex = lexicon(
        vec![e1, e2],
        vec![synset("s1", &["to sprint"]), synset("s2", &["of great size"])],
    );
    let dict = convert_lexicon(&lex).expect("conversion succeeds");
    assert_eq!(dict.entries.len(), 3);
    for term in ["run", "big", "ran"] {
        assert!(dict.entries.get(&term.to_string()).is_some(), "missing {term}");
    }
}

#[test]
fn pronunciation_reaches_etymology() {
    let mut e = entry("w1", "run", "v", vec![sense("w1-1", "s1")]);
    e.lemma.pronunciation = Some(vec![Pronunciation {
        variety: Some("GB".to_string()),
        text: Some("r-uhn".to_string()),
    }]);
    let lex = lexicon(vec![e], vec![synset("s1", &["to sprint"])]);
    let dict = convert_lexicon(&lex).expect("conversion succeeds");
    let run = dict.entries.get(&"run".to_string()).expect("entry exists");
    assert_eq!(run.etymologies[0].pronunciation, Some("GB: r-uhn".to_string()));
}

#[test]
fn synonym_note_flows_into_definition() {
    let lex = lexicon(
        vec![
            entry("w1", "big", "a", vec![sense("w1-1", "s1")]),
            entry("w2", "large", "a", vec![sense("w2-1", "s1")]),
        ],
        vec![synset("s1", &["of great size"])],
    );
    let dict = convert_lexicon(&lex).expect("conversion succeeds");
    let big = dict.entries.get(&"big".to_string()).expect("entry exists");
    let def = &big.etymologies[0].senses[0].definitions[0];
    assert_eq!(def.note, Some("Synonyms: big, large".to_string()));
    assert_eq!(def.value, "of great size");
}

#[test]
fn empty_lexicon_converts_to_empty_dictionary() {
    let lex = lexicon(Vec::new(), Vec::new());
    let dict = convert_lexicon(&lex).expect("conversion succeeds");
    assert_eq!(dict.name, "Test Lexicon");
    assert_eq!(dict.entries.len(), 0);
}

#[test]
fn entry_without_senses_still_yields_etymology() {
    let lex = lexicon(vec![entry("w1", "run", "v", Vec::new())], Vec::new());
    let dict = convert_lexicon(&lex).expect("conversion succeeds");
    let run = dict.entries.get(&"run".to_string()).expect("entry exists");
    assert_eq!(run.etymologies.len(), 1);
    assert_eq!(run.etymologies[0].senses.len(), 1);
    assert_eq!(run.etymologies[0].senses[0].pos, Pos::Verb);
    assert!(run.etymologies[0].senses[0].definitions.is_empty());
}

#[test]
fn unreferenced_synset_gets_no_synonym_note() {
    let lex = lexicon(
        vec![entry("w1", "run", "v", Vec::new())],
        vec![synset("s1", &["to sprint"])],
    );
    let dict = convert_lexicon(&lex).expect("conversion succeeds");
    assert_eq!(dict.entries.len(), 1);
}
