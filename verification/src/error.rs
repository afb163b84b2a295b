//! The ways in which a request to the quiz can be rejected.

use vstd::prelude::*;

verus! {

/// Why a request was rejected.
#[derive(Clone, Copy, Debug, PartialEq, Eq, Structural)]
pub enum QuizError {
    /// The difficulty named in the request is not one of the four tiers.
    InvalidDifficulty,
    /// A question or answer index lies outside the collection it refers to.
    IndexOutOfRange,
    /// A user with that identifier is already registered.
    DuplicateUser,
    /// No user with that identifier is registered.
    NotFound,
    /// The new total would not fit the ledger's signed 32-bit points column.
    PointsOutOfRange,
    /// The points could not be written out as text.
    Encoding,
    /// The durable store could not be reached or failed. Whether a write
    /// that failed this way was applied is not known.
    StoreUnavailable,
}

} // verus!
