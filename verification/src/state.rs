//! Whose turn it is, or the terminal outcome of a game.

use vstd::prelude::*;

use crate::mark::Mark;

verus! {

/// The phase of a game: in progress with an active player, won by a
/// player, or tied. `Win` and `Tie` are terminal; once reached, no
/// further turn is permitted.
#[derive(Clone, Copy, Debug, PartialEq, Eq, Structural)]
pub enum State {
    /// The game is ongoing and the carried mark moves next.
    Playing(Mark),
    /// The game is over and the carried mark won.
    Win(Mark),
    /// The game is over with the board full and no winner.
    Tie,
}

impl Default for State {
    /// A fresh game is in progress with Circle to move.
    fn default() -> (s: State)
        ensures
            s == State::Playing(Mark::Circle),
    {
        State::Playing(Mark::Circle)
    }
}

} // verus!
