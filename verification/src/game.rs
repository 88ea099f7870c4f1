//! The game itself: one board paired with one state, turn validation,
//! win and tie detection, and the game-level compact codec.

pub mod turn_error;

pub use turn_error::TurnError;

use vstd::prelude::*;
use vstd::string::StrSliceExecFns;
use vstd::string::StringExecFns;

use crate::board::board_full;
use crate::board::cell;
use crate::board::cell_char;
use crate::board::empty_board;
use crate::board::Board;
use crate::mark::glyph;
use crate::mark::spec_parse_mark;
use crate::mark::Mark;
use crate::mark::ParseError;
use crate::state::State;

verus! {

/// One match: a board and the state of play. The game is the sole owner
/// of both; every mutation goes through `make_turn`.
#[derive(Clone, Copy, Debug, PartialEq, Eq)]
pub struct Game {
    pub board: Board,
    pub state: State,
}

/// The mark that moves after the given one.
pub open spec fn flip(m: Mark) -> Mark {
    match m {
        Mark::Circle => Mark::Cross,
        Mark::Cross => Mark::Circle,
    }
}

/// The given row is filled with the given mark.
pub open spec fn row_won(b: Seq<Option<Mark>>, row: int, m: Mark) -> bool {
    &&& cell(b, row, 0) == Some(m)
    &&& cell(b, row, 1) == Some(m)
    &&& cell(b, row, 2) == Some(m)
}

/// The given column is filled with the given mark.
pub open spec fn column_won(b: Seq<Option<Mark>>, column: int, m: Mark) -> bool {
    &&& cell(b, 0, column) == Some(m)
    &&& cell(b, 1, column) == Some(m)
    &&& cell(b, 2, column) == Some(m)
}

/// The top-left to bottom-right diagonal is filled with the given mark.
pub open spec fn main_diagonal_won(b: Seq<Option<Mark>>, m: Mark) -> bool {
    &&& cell(b, 0, 0) == Some(m)
    &&& cell(b, 1, 1) == Some(m)
    &&& cell(b, 2, 2) == Some(m)
}

/// The bottom-left to top-right diagonal is filled with the given mark.
pub open spec fn anti_diagonal_won(b: Seq<Option<Mark>>, m: Mark) -> bool {
    &&& cell(b, 2, 0) == Some(m)
    &&& cell(b, 1, 1) == Some(m)
    &&& cell(b, 0, 2) == Some(m)
}

/// A move of `m` at `(row, column)` wins iff one of the lines through
/// that cell — its row, its column, or a diagonal the cell lies on — is
/// filled with `m`.
pub open spec fn won_at(b: Seq<Option<Mark>>, row: int, column: int, m: Mark) -> bool {
    ||| row_won(b, row, m)
    ||| column_won(b, column, m)
    ||| (row == column && main_diagonal_won(b, m))
    ||| (row + column == 2 && anti_diagonal_won(b, m))
}

/// The last move placed a mark at `(row, column)` and completed a line
/// through that cell.
pub open spec fn won_by_last_move(b: Seq<Option<Mark>>, row: int, column: int) -> bool {
    cell(b, row, column) matches Some(m) && won_at(b, row, column, m)
}

/// The state a successful move of `m` at `(row, column)` leaves behind,
/// judged on the board `b1` as it stands after the mark was placed: a
/// win if a line through the cell is complete, a tie if the board is
/// full, otherwise play passes to the other mark.
pub open spec fn next_state(b1: Seq<Option<Mark>>, row: int, column: int, m: Mark) -> State {
    if won_at(b1, row, column, m) {
        State::Win(m)
    } else if board_full(b1) {
        State::Tie
    } else {
        State::Playing(flip(m))
    }
}

impl Game {
    /// A read-only snapshot of the board.
    pub fn board(&self) -> (r: Board)
        ensures
            r == self.board,
    {
        self.board
    }

    /// The current state of play.
    pub fn state(&self) -> (r: State)
        ensures
            r == self.state,
    {
        self.state
    }

    /// One validated turn. Rejected without any mutation when the game
    /// is finished or the cell is occupied; otherwise the active mark is
    /// placed and the state moves exactly as `next_state` says, so a
    /// reported win always has a completed line through the played cell
    /// and a reported tie always has a full board.
    pub fn make_turn(&mut self, row: usize, column: usize) -> (r: Result<(), TurnError>)
        requires
            row < 3,
            column < 3,
        ensures
            ({
                let b0 = old(self).board@;
                let s0 = old(self).state;
                match r {
                    Ok(()) => ({
                        let m = s0->Playing_0;
                        let b1 = b0.update(row * 3 + column, Some(m));
                        &&& s0 is Playing
                        &&& cell(b0, row as int, column as int) is None
                        &&& final(self).board@ == b1
                        &&& final(self).state == next_state(b1, row as int, column as int, m)
                    }),
                    Err(TurnError::GameFinished) => !(s0 is Playing) && *final(self) == *old(
                        self,
                    ),
                    Err(TurnError::CellOccupied) => s0 is Playing
                        && cell(b0, row as int, column as int) is Some
                        && *final(self) == *old(self),
                }
            }),
    {
        let active_role = match self.state {
            State::Playing(m) => m,
            _ => {
                return Err(TurnError::GameFinished);
            },
        };

        if self.board.at(row, column).is_some() {
            return Err(TurnError::CellOccupied);
        }

        self.board.mark(row, column, active_role);

        if self.is_won(row, column) {
            self.state = State::Win(active_role);
            return Ok(());
        }

        if self.board.full() {
            self.state = State::Tie;
            return Ok(());
        }

        self.state = State::Playing(match active_role {
            Mark::Circle => Mark::Cross,
            Mark::Cross => Mark::Circle,
        });
        Ok(())
    }

    /// True iff the cell at `(row, column)` holds the given mark.
    fn cell_is(&self, row: usize, column: usize, m: Mark) -> (r: bool)
        requires
            row < 3,
            column < 3,
        ensures
            r == (cell(self.board@, row as int, column as int) == Some(m)),
    {
        match self.board.at(row, column) {
            Some(x) => x == m,
            None => false,
        }
    }

    /// Whether the move just played at `(row, column)` completed a line
    /// through that cell. Only the cell's own row, its own column, and a
    /// diagonal the cell actually lies on are examined.
    fn is_won(&self, row: usize, column: usize) -> (r: bool)
        requires
            row < 3,
            column < 3,
        ensures
            r == won_by_last_move(self.board@, row as int, column as int),
    {
        let m = match self.board.at(row, column) {
            Some(m) => m,
            None => {
                return false;
            },
        };

        let row_win = self.cell_is(row, 0, m) && self.cell_is(row, 1, m)
            && self.cell_is(row, 2, m);
        let column_win = self.cell_is(0, column, m) && self.cell_is(1, column, m)
            && self.cell_is(2, column, m);
        let main_diagonal_win = row == column && self.cell_is(0, 0, m)
            && self.cell_is(1, 1, m) && self.cell_is(2, 2, m);
        let anti_diagonal_win = row + column == 2 && self.cell_is(2, 0, m)
            && self.cell_is(1, 1, m) && self.cell_is(0, 2, m);

        row_win || column_win || main_diagonal_win || anti_diagonal_win
    }
}

impl Default for Game {
    /// A fresh match: empty board, Circle to move.
    fn default() -> (g: Game)
        ensures
            g.board@ == empty_board(),
            g.state == State::Playing(Mark::Circle),
    {
        Game { board: Board::default(), state: State::default() }
    }
}

/// The compact encoding of a state: its tag character, followed by the
/// mark glyph where one applies.
pub open spec fn spec_encode_state(st: State) -> Seq<char> {
    match st {
        State::Playing(m) => seq!['P', glyph(m)],
        State::Win(m) => seq!['W', glyph(m)],
        State::Tie => seq!['T'],
    }
}

/// The state a segment decodes to: one tag character; after `P` or `W`
/// the rest of the segment must be exactly one mark glyph, while
/// anything after `T` is ignored.
pub open spec fn spec_decode_state(s: Seq<char>) -> Result<State, ParseError> {
    if s.len() == 0 {
        Err(ParseError)
    } else if s[0] == 'P' {
        match spec_parse_mark(s.skip(1)) {
            Ok(m) => Ok(State::Playing(m)),
            Err(e) => Err(e),
        }
    } else if s[0] == 'W' {
        match spec_parse_mark(s.skip(1)) {
            Ok(m) => Ok(State::Win(m)),
            Err(e) => Err(e),
        }
    } else if s[0] == 'T' {
        Ok(State::Tie)
    } else {
        Err(ParseError)
    }
}

/// The compact encoding of a game: nine board characters, a semicolon,
/// then the encoded state.
pub open spec fn spec_encode(b: Seq<Option<Mark>>, st: State) -> Seq<char> {
    crate::board::spec_encode(b) + seq![';'] + spec_encode_state(st)
}

/// The position of the first semicolon, or the length when there is
/// none.
pub open spec fn first_semi(s: Seq<char>) -> int
    decreases s.len(),
{
    if s.len() == 0 {
        0
    } else if s[0] == ';' {
        0
    } else {
        1 + first_semi(s.skip(1))
    }
}

/// The game a string decodes to: the part before the first semicolon is
/// the board, the part between the first and second semicolons (or the
/// end) is the state; anything after a second semicolon is ignored.
pub open spec fn spec_decode(s: Seq<char>) -> Result<(Seq<Option<Mark>>, State), ParseError> {
    let i = first_semi(s);
    let rest = if i == s.len() {
        Seq::<char>::empty()
    } else {
        s.skip(i + 1)
    };
    let state_part = rest.take(first_semi(rest));
    match crate::board::spec_decode(s.take(i)) {
        Ok(b) => match spec_decode_state(state_part) {
            Ok(st) => Ok((b, st)),
            Err(e) => Err(e),
        },
        Err(e) => Err(e),
    }
}

/// Everything before `first_semi` is not a semicolon, and the character
/// there, if the position is in range, is one.
pub proof fn lemma_first_semi(s: Seq<char>)
    ensures
        0 <= first_semi(s) <= s.len(),
        forall|k: int| 0 <= k < first_semi(s) ==> s[k] != ';',
        first_semi(s) < s.len() ==> s[first_semi(s)] == ';',
    decreases s.len(),
{
    if s.len() == 0 {
    } else if s[0] == ';' {
    } else {
        lemma_first_semi(s.skip(1));
        assert forall|k: int| 0 <= k < first_semi(s) implies s[k] != ';' by {
            if k > 0 {
                assert(s.skip(1)[k - 1] != ';');
                assert(s.skip(1)[k - 1] == s[k]);
            }
        }
        if first_semi(s) < s.len() {
            assert(s.skip(1)[first_semi(s) - 1] == s[first_semi(s)]);
        }
    }
}

/// A position with no semicolon anywhere before it, and one at it
/// unless it is the end, is the first semicolon.
pub proof fn lemma_first_semi_is(s: Seq<char>, i: int)
    requires
        0 <= i <= s.len(),
        forall|k: int| 0 <= k < i ==> s[k] != ';',
        i < s.len() ==> s[i] == ';',
    ensures
        first_semi(s) == i,
{
    lemma_first_semi(s);
    if first_semi(s) < i {
        assert(s[first_semi(s)] != ';');
        assert(s[first_semi(s)] == ';');
    } else if first_semi(s) > i {
        assert(s[i] != ';');
        assert(s[i] == ';');
    }
}

/// Scans forward from `start` for the first semicolon at or after it.
fn find_semi_from(s: &str, start: usize, len: usize) -> (i: usize)
    requires
        start <= s@.len(),
        len == s@.len(),
    ensures
        start <= i <= s@.len(),
        forall|k: int| start <= k < i ==> s@[k] != ';',
        i < s@.len() ==> s@[i as int] == ';',
{
    let mut i = start;
    while i < len
        invariant
            start <= i <= len,
            len == s@.len(),
            forall|k: int| start <= k < i ==> s@[k] != ';',
        decreases len - i,
    {
        if s.get_char(i) == ';' {
            return i;
        }
        i += 1;
    }
    i
}

/// Appends the compact encoding of the game to the buffer.
pub fn encode_by_ref(game: &Game, buffer: &mut String)
    ensures
        final(buffer)@ == old(buffer)@ + spec_encode(game.board@, game.state),
{
    proof {
        reveal_strlit(";");
        reveal_strlit("P");
        reveal_strlit("W");
        reveal_strlit("T");
        assert(";"@ =~= seq![';']);
        assert("P"@ =~= seq!['P']);
        assert("W"@ =~= seq!['W']);
        assert("T"@ =~= seq!['T']);
    }
    crate::board::encode_by_ref(&game.board, buffer);
    buffer.append(";");
    match game.state {
        State::Playing(m) => {
            buffer.append("P");
            crate::mark::encode_by_ref(&m, buffer);
        },
        State::Win(m) => {
            buffer.append("W");
            crate::mark::encode_by_ref(&m, buffer);
        },
        State::Tie => {
            buffer.append("T");
        },
    }
    proof {
        assert(buffer@ =~= old(buffer)@ + spec_encode(game.board@, game.state));
    }
}

/// Decodes a state segment: the tag character, then for `P` and `W`
/// exactly one mark glyph.
fn decode_state(s: &str) -> (r: Result<State, ParseError>)
    ensures
        r == spec_decode_state(s@),
{
    let len = s.unicode_len();
    if len == 0 {
        return Err(ParseError);
    }
    let tag = s.get_char(0);
    if tag == 'P' {
        let rest = s.substring_char(1, len);
        proof {
            assert(rest@ =~= s@.skip(1));
        }
        match Mark::from_str(rest) {
            Ok(m) => Ok(State::Playing(m)),
            Err(e) => Err(e),
        }
    } else if tag == 'W' {
        let rest = s.substring_char(1, len);
        proof {
            assert(rest@ =~= s@.skip(1));
        }
        match Mark::from_str(rest) {
            Ok(m) => Ok(State::Win(m)),
            Err(e) => Err(e),
        }
    } else if tag == 'T' {
        Ok(State::Tie)
    } else {
        Err(ParseError)
    }
}

/// Decodes a game: the board from the text before the first semicolon,
/// the state from the text between the first and second semicolons.
pub fn decode(value: &str) -> (r: Result<Game, ParseError>)
    ensures
        r matches Ok(g) ==> spec_decode(value@) == Ok::<(Seq<Option<Mark>>, State), ParseError>(
            (g.board@, g.state),
        ),
        r is Err ==> spec_decode(value@) is Err,
{
    let len = value.unicode_len();
    let i = find_semi_from(value, 0, len);
    proof {
        lemma_first_semi_is(value@, i as int);
    }
    let board_part = value.substring_char(0, i);
    proof {
        assert(board_part@ =~= value@.take(i as int));
    }
    let board = match crate::board::decode(board_part) {
        Ok(b) => b,
        Err(e) => {
            return Err(e);
        },
    };
    if i == len {
        // No semicolon at all: there is no state segment.
        proof {
            assert(Seq::<char>::empty().take(first_semi(Seq::<char>::empty()))
                =~= Seq::<char>::empty());
        }
        return Err(ParseError);
    }
    let j = find_semi_from(value, i + 1, len);
    let ghost rest = value@.skip(i as int + 1);
    proof {
        assert forall|k: int| 0 <= k < j - i - 1 implies rest[k] != ';' by {
            assert(rest[k] == value@[k + i + 1]);
        }
        if j < len {
            assert(rest[j - i - 1] == value@[j as int]);
        }
        lemma_first_semi_is(rest, j - i - 1);
    }
    let state_part = value.substring_char(i + 1, j);
    proof {
        assert(state_part@ =~= rest.take(j - i - 1));
    }
    match decode_state(state_part) {
        Ok(state) => Ok(Game { board, state }),
        Err(e) => Err(e),
    }
}

/// An encoded state decodes back to itself.
pub proof fn lemma_state_round_trip(st: State)
    ensures
        spec_decode_state(spec_encode_state(st)) == Ok::<State, ParseError>(st),
{
    let e = spec_encode_state(st);
    match st {
        State::Playing(m) => {
            crate::mark::lemma_glyph_round_trip(m);
            assert(e.skip(1) =~= seq![glyph(m)]);
        },
        State::Win(m) => {
            crate::mark::lemma_glyph_round_trip(m);
            assert(e.skip(1) =~= seq![glyph(m)]);
        },
        State::Tie => {},
    }
}

/// Law: decoding the encoding of any game yields that game back, board
/// and state alike.
pub proof fn lemma_game_round_trip(g: Game)
    ensures
        spec_decode(spec_encode(g.board@, g.state)) == Ok::<(Seq<Option<Mark>>, State), ParseError>(
            (g.board@, g.state),
        ),
{
    let b = g.board@;
    let st = g.state;
    let e = spec_encode(b, st);
    let eb = crate::board::spec_encode(b);
    let es = spec_encode_state(st);
    assert(b.len() == 9);
    assert forall|k: int| 0 <= k < 9 implies e[k] != ';' by {
        assert(e[k] == eb[k]);
        assert(eb[k] == cell_char(b[k]));
        match b[k] {
            Some(m) => {
                crate::mark::lemma_glyph_round_trip(m);
            },
            None => {},
        }
    }
    assert(e[9] == ';');
    lemma_first_semi_is(e, 9);
    assert(e.take(9) =~= eb);
    crate::board::lemma_board_round_trip(b);
    let rest = e.skip(10);
    assert(rest =~= es);
    assert forall|k: int| 0 <= k < es.len() implies es[k] != ';' by {
        match st {
            State::Playing(m) => {
                crate::mark::lemma_glyph_round_trip(m);
            },
            State::Win(m) => {
                crate::mark::lemma_glyph_round_trip(m);
            },
            State::Tie => {},
        }
    }
    lemma_first_semi_is(es, es.len() as int);
    assert(es.take(es.len() as int) =~= es);
    lemma_state_round_trip(st);
}

/// Law: a board whose row is filled with one mark is won, and a move
/// that completed that row lands immediately in `Win` of that mark.
pub proof fn lemma_row_win(b: Seq<Option<Mark>>, row: int, column: int, m: Mark)
    requires
        0 <= row < 3,
        0 <= column < 3,
        forall|c: int| 0 <= c < 3 ==> cell(b, row, c) == Some(m),
    ensures
        won_at(b, row, column, m),
        next_state(b, row, column, m) == State::Win(m),
{
    assert(cell(b, row, 0) == Some(m));
    assert(cell(b, row, 1) == Some(m));
    assert(cell(b, row, 2) == Some(m));
}

/// Law: a board whose column is filled with one mark is won, and a move
/// that completed that column lands immediately in `Win` of that mark.
pub proof fn lemma_column_win(b: Seq<Option<Mark>>, row: int, column: int, m: Mark)
    requires
        0 <= row < 3,
        0 <= column < 3,
        forall|r: int| 0 <= r < 3 ==> cell(b, r, column) == Some(m),
    ensures
        won_at(b, row, column, m),
        next_state(b, row, column, m) == State::Win(m),
{
    assert(cell(b, 0, column) == Some(m));
    assert(cell(b, 1, column) == Some(m));
    assert(cell(b, 2, column) == Some(m));
}

} // verus!
