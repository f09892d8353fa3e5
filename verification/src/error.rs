//! Configuration errors.

use vstd::prelude::*;

verus! {

/// Why an overlay could not be configured.
#[derive(Debug, Clone, Copy, PartialEq, Eq, Structural)]
pub enum Error {
    /// The horizontal position names a vertical edge, or the vertical position a
    /// horizontal one.
    InvalidAnchor,
    /// The width or the height is not a number between zero and one.
    InvalidFraction,
}

} // verus!
