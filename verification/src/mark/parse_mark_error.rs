//! A second spelling of the mark-parsing failure, kept as public API
//! surface beside `ParseError`.

use vstd::prelude::*;
use vstd::string::StringExecFns;

verus! {

/// A string offered as a mark was neither of the two glyphs.
#[derive(Clone, Copy, Debug, PartialEq, Eq, Structural)]
pub struct ParseMarkError;

impl ParseMarkError {
    /// A human-readable account of the failure.
    pub fn message(&self) -> (r: String)
        ensures
            r@ == "provided string was not `{CIRCLE}` or `{CROSS}`"@,
    {
        String::from_str("provided string was not `{CIRCLE}` or `{CROSS}`")
    }
}

} // verus!
