//! The ways a lookup can fail.

use vstd::prelude::*;

verus! {

/// Why a lookup gave no record.
#[derive(Debug, Clone, Copy, PartialEq, Eq, Structural)]
pub enum PoetryError {
    /// A line has fewer than the three fields that every record starts with.
    MalformedRecord,
    /// The pattern assembled from the filters is not a valid expression.
    PatternCompileError,
    /// The corpus has no line to draw from.
    DegenerateCorpus,
}

} // verus!
