//! Conversion of a WordNet-style lexicon (entries pointing into synsets via
//! senses) into a term-keyed dictionary model (entries holding etymology
//! groups with part-of-speech sense groups), together with proofs of the
//! transformation's laws.
pub mod aggregate;
pub mod crossref;
pub mod defs;
pub mod groups;
pub mod laws;
pub mod model;
pub mod pipeline;
pub mod pos;
pub mod pron;
pub mod table;
pub mod text;
pub mod wn;
