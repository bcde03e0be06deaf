use vstd::prelude::*;

verus! {

/// Why a mutation of an information source was rejected. Each setter
/// validates its whole input before committing anything, so a rejected call
/// leaves the source exactly as it was.
#[derive(Clone, Copy, Debug, PartialEq, Eq, Structural)]
pub enum ValidationError {
    /// The candidate probabilities do not sum to the unit mass within the
    /// tolerance; carries the computed sum, in millionths.
    ProbabilitySum { sum: u128 },
    /// Two candidate codewords render to the same digit string.
    DuplicateCode,
    /// Two candidate labels are textually identical.
    DuplicateLabel,
    /// A codeword byte above nine has no decimal digit to render as.
    EncodingRange,
}

} // verus!
