//! A validated model of a discrete information source: a finite alphabet of
//! symbols, each with a probability of occurrence (kept in millionths of the
//! unit mass), a binary codeword, and a human-readable label, together with
//! the derived lookup dictionaries from label to index and from rendered
//! codeword to index.

pub mod dictionary;
pub mod errors;
pub mod information_source;
pub mod numeric;
pub mod rendering;
pub mod sampling;

pub use crate::errors::ValidationError;
pub use crate::information_source::InformationSource;
