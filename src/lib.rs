//! Nucleotide sequences (DNA and RNA strings) with verified transformations
//! and queries.
pub mod laws;
pub mod model;
pub mod sequence;

pub use sequence::Sequence;
