//! Classification-evaluation statistics over label arrays.
//!
//! The crate computes confusion matrices and the integer sufficient
//! statistics behind precision, recall and F1 (true-positive counts and
//! their companion totals) from paired arrays of actual and predicted
//! class labels. Labels may be booleans or fixed-width integers; a small
//! dispatcher resolves the common element kind and hands the work to one
//! generic algorithm. No ratios are computed here: callers divide.
//!
//! The actual and predicted arrays of one call must have the same length:
//! a mismatch is rejected with an error, never silently truncated.

use vstd::prelude::*;

pub mod array;
pub mod binary;
pub mod cm;
pub mod element;
pub mod matrix;
pub mod multiclass;
pub mod reduce;
pub mod utils;

pub use array::Kind;
pub use array::LabelArray;
pub use binary::binary_f1_score_reqs;
pub use binary::binary_precision_reqs;
pub use binary::binary_recall_reqs;
pub use cm::confusion_matrix;
pub use matrix::ConfusionMatrix;
pub use multiclass::f1_reqs;
pub use multiclass::f1_score;
pub use multiclass::precision;
pub use multiclass::precision_reqs;
pub use multiclass::recall;
pub use multiclass::recall_reqs;
pub use utils::unique;

verus! {

/// Largest supported number of samples in one label array: a `Vec` buffer
/// holds at most `isize::MAX` bytes and every supported element occupies at
/// least one byte, so longer arrays cannot exist in memory.
pub const MAX_LEN: u64 = 0x7fff_ffff_ffff_ffff;

/// Errors reported by the dispatch boundary. Once dispatch succeeds the
/// reductions themselves cannot fail.
#[derive(Clone, Copy, Debug, PartialEq, Eq, Structural)]
pub enum StatsError {
    /// The operand arrays do not share one supported element kind.
    KindMismatch,
    /// The actual and predicted arrays have different lengths.
    LengthMismatch,
    /// A binary fast-path operand holds a value other than 0 or 1.
    NonBinaryValue,
}

} // verus!
