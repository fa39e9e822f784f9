//! Validated nucleotide sequences (DNA and RNA, IUPAC codes included) and the
//! classification of small variants built from them.
pub mod base;
pub mod errors;
pub mod mutations;
pub mod sequences;

pub use base::{Alphabet, Base, ChemClass};
pub use errors::SeqError;
pub use mutations::{SmallMutation, SmallMutationType, TiTv};
pub use sequences::BioSeq;
