//! The failures a turn can be rejected with.

use vstd::prelude::*;
use vstd::string::StringExecFns;

verus! {

/// Why a requested turn was rejected. Both cases are recoverable: the
/// game is left exactly as it was and the caller may try another move.
#[derive(Clone, Copy, Debug, PartialEq, Eq, Structural)]
pub enum TurnError {
    /// The game already reached a terminal state.
    GameFinished,
    /// The addressed cell already holds a mark.
    CellOccupied,
}

impl TurnError {
    /// A human-readable account of the failure.
    pub fn message(&self) -> (r: String)
        ensures
            *self == TurnError::GameFinished ==> r@ == "game is already finished"@,
            *self == TurnError::CellOccupied ==> r@ == "cell is already occupied"@,
    {
        match self {
            TurnError::GameFinished => String::from_str("game is already finished"),
            TurnError::CellOccupied => String::from_str("cell is already occupied"),
        }
    }
}

} // verus!
