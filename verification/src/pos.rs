//! The part-of-speech classification scheme bridging the source tag set and
//! the target categories. The mapping is a fixed, case-sensitive table over
//! single-letter source tags; any tag outside the table is a fatal input.
use crate::model::{ConvertError, Pos};
use vstd::prelude::*;

verus! {

/// The fixed mapping table: `n` noun, `v` verb, `a`/`s` adjective, `r`
/// adverb, `z` phrase, `c` conjunction, `p`/`x`/`u` unknown; every other tag
/// is outside the table.
pub open spec fn pos_of_tag(t: Seq<char>) -> Option<Pos> {
    if t.len() == 1 {
        if t[0] == 'n' {
            Some(Pos::Noun)
        } else if t[0] == 'v' {
            Some(Pos::Verb)
        } else if t[0] == 'a' || t[0] == 's' {
            Some(Pos::Adjective)
        } else if t[0] == 'r' {
            Some(Pos::Adverb)
        } else if t[0] == 'z' {
            Some(Pos::Phrase)
        } else if t[0] == 'c' {
            Some(Pos::Conjunction)
        } else if t[0] == 'p' || t[0] == 'x' || t[0] == 'u' {
            Some(Pos::Unknown)
        } else {
            None
        }
    } else {
        None
    }
}

/// Resolves a source part-of-speech tag against the table, and reports a tag
/// outside the table as the fatal input it is.
pub fn parse_pos(tag: &String) -> (r: Result<Pos, ConvertError>)
    ensures
        match r {
            Ok(p) => pos_of_tag(tag@) == Some(p),
            Err(e) => pos_of_tag(tag@) is None && e == ConvertError::InvalidPartOfSpeechTag,
        },
{
    if *tag == "n".to_owned() {
        proof {
            reveal_strlit("n");
            assert(tag@ =~= seq!['n']);
        }
        Ok(Pos::Noun)
    } else if *tag == "v".to_owned() {
        proof {
            reveal_strlit("v");
            assert(tag@ =~= seq!['v']);
        }
        Ok(Pos::Verb)
    } else if *tag == "a".to_owned() || *tag == "s".to_owned() {
        proof {
            reveal_strlit("a");
            reveal_strlit("s");
            if tag@ == "a"@ {
                assert(tag@ =~= seq!['a']);
            } else {
                assert(tag@ =~= seq!['s']);
            }
        }
        Ok(Pos::Adjective)
    } else if *tag == "r".to_owned() {
        proof {
            reveal_strlit("r");
            assert(tag@ =~= seq!['r']);
        }
        Ok(Pos::Adverb)
    } else if *tag == "z".to_owned() {
        proof {
            reveal_strlit("z");
            assert(tag@ =~= seq!['z']);
        }
        Ok(Pos::Phrase)
    } else if *tag == "c".to_owned() {
        proof {
            reveal_strlit("c");
            assert(tag@ =~= seq!['c']);
        }
        Ok(Pos::Conjunction)
    } else if *tag == "p".to_owned() || *tag == "x".to_owned() || *tag == "u".to_owned() {
        proof {
            reveal_strlit("p");
            reveal_strlit("x");
            reveal_strlit("u");
            if tag@ == "p"@ {
                assert(tag@ =~= seq!['p']);
            } else if tag@ == "x"@ {
                assert(tag@ =~= seq!['x']);
            } else {
                assert(tag@ =~= seq!['u']);
            }
        }
        Ok(Pos::Unknown)
    } else {
        proof {
            reveal_strlit("n");
            reveal_strlit("v");
            reveal_strlit("a");
            reveal_strlit("s");
            reveal_strlit("r");
            reveal_strlit("z");
            reveal_strlit("c");
            reveal_strlit("p");
            reveal_strlit("x");
            reveal_strlit("u");
            if tag@.len() == 1 {
                let c = tag@[0];
                if c == 'n' {
                    assert(tag@ =~= "n"@);
                } else if c == 'v' {
                    assert(tag@ =~= "v"@);
                } else if c == 'a' {
                    assert(tag@ =~= "a"@);
                } else if c == 's' {
                    assert(tag@ =~= "s"@);
                } else if c == 'r' {
                    assert(tag@ =~= "r"@);
                } else if c == 'z' {
                    assert(tag@ =~= "z"@);
                } else if c == 'c' {
                    assert(tag@ =~= "c"@);
                } else if c == 'p' {
                    assert(tag@ =~= "p"@);
                } else if c == 'x' {
                    assert(tag@ =~= "x"@);
                } else if c == 'u' {
                    assert(tag@ =~= "u"@);
                }
            }
        }
        Err(ConvertError::InvalidPartOfSpeechTag)
    }
}

} // verus!
