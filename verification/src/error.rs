//! The one failure type the serving layer translates for its callers.

use vstd::prelude::*;

use crate::game::TurnError;
use crate::mark::ParseError;

verus! {

/// A failure carried to the serving layer as plain text. Every error of
/// the library can be wrapped into one, so a collaborator needs to
/// translate only this type.
pub struct Error {
    pub message: String,
}

impl Error {
    /// The text of the wrapped failure.
    pub fn message(&self) -> (r: &str)
        ensures
            r@ == self.message@,
    {
        self.message.as_str()
    }

    /// Wraps a rejected turn.
    pub fn from_turn(e: TurnError) -> (r: Error)
        ensures
            e == TurnError::GameFinished ==> r.message@ == "game is already finished"@,
            e == TurnError::CellOccupied ==> r.message@ == "cell is already occupied"@,
    {
        Error { message: e.message() }
    }

    /// Wraps a decoding failure.
    pub fn from_parse(e: ParseError) -> (r: Error)
        ensures
            r.message@ == "provided string was not `{CIRCLE}` or `{CROSS}`"@,
    {
        Error { message: e.message() }
    }
}

} // verus!
