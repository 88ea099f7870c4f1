//! The failure returned when text does not decode as a mark, a board or a
//! game.

use vstd::prelude::*;
use vstd::string::StringExecFns;

verus! {

/// Decoding met a character that is not a valid mark glyph, or a state
/// tag that is not recognized. This signals storage corruption or a
/// format mismatch and must be surfaced as a hard failure of the read.
#[derive(Clone, Copy, Debug, PartialEq, Eq, Structural)]
pub struct ParseError;

impl ParseError {
    /// A human-readable account of the failure.
    pub fn message(&self) -> (r: String)
        ensures
            r@ == "provided string was not `{CIRCLE}` or `{CROSS}`"@,
    {
        String::from_str("provided string was not `{CIRCLE}` or `{CROSS}`")
    }
}

} // verus!
