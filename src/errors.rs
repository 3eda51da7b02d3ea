use vstd::prelude::*;

verus! {

/// A write addressed a position outside the board.
#[derive(Debug, Clone, Copy, PartialEq, Eq, Structural)]
#[verifier::ext_equal]
pub struct IndexOutOfBoundsError;

/// A textual seed has the wrong number of rows, a row of the wrong width,
/// or a character other than a space or `o`.
#[derive(Debug, Clone, Copy, PartialEq, Eq, Structural)]
#[verifier::ext_equal]
pub struct InvalidFormatError;

} // verus!
