//! Why an entry was turned down.

use vstd::prelude::*;

verus! {

/// The ways in which the two texts of an entry can fail to denote a
/// measurement.
#[derive(Clone, Copy, Debug, PartialEq, Eq, Structural)]
pub enum ParseError {
    /// The value text is not a whole number that fits a measurement.
    InvalidValue,
    /// The time text has fewer than two fields between colons, or one of the
    /// first two is not a small unsigned number.
    MalformedTime,
}

} // verus!
