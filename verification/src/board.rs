//! The 3x3 grid of optional marks, its queries, its compact nine-glyph
//! codec and its human-readable rendering.

use vstd::prelude::*;
use vstd::string::StrSliceExecFns;
use vstd::string::StringExecFns;

use crate::mark::glyph;
use crate::mark::mark_of_glyph;
use crate::mark::Mark;
use crate::mark::ParseError;

verus! {

/// A 3x3 matrix of optional marks, stored row-major: the cell at
/// `(row, column)` lives at index `row * 3 + column`. The board is a
/// plain container; only the game layer guards cell transitions.
#[derive(Clone, Copy, Debug, PartialEq, Eq)]
pub struct Board {
    pub cells: [Option<Mark>; 9],
}

impl View for Board {
    type V = Seq<Option<Mark>>;

    open spec fn view(&self) -> Seq<Option<Mark>> {
        self.cells@
    }
}

/// The cell of a row-major board at `(row, column)`.
pub open spec fn cell(b: Seq<Option<Mark>>, row: int, column: int) -> Option<Mark> {
    b[row * 3 + column]
}

/// True iff no cell of the board is empty.
pub open spec fn board_full(b: Seq<Option<Mark>>) -> bool {
    forall|i: int| 0 <= i < 9 ==> b[i] is Some
}

/// The board with all nine cells empty.
pub open spec fn empty_board() -> Seq<Option<Mark>> {
    Seq::new(9, |i: int| None)
}

/// The one character a cell encodes as: the mark's glyph, or a space for
/// an empty cell.
pub open spec fn cell_char(c: Option<Mark>) -> char {
    match c {
        Some(m) => glyph(m),
        None => ' ',
    }
}

/// The compact encoding of a board: exactly nine cell characters in
/// row-major order.
pub open spec fn spec_encode(b: Seq<Option<Mark>>) -> Seq<char> {
    Seq::new(9, |i: int| cell_char(b[i]))
}

/// The character decoding reads at position `i`: input shorter than nine
/// characters is padded with spaces, that is, treated as empty cells.
pub open spec fn char_at_or_space(s: Seq<char>, i: int) -> char {
    if 0 <= i < s.len() {
        s[i]
    } else {
        ' '
    }
}

/// What a character stands for in a board string: an empty cell, a
/// marked cell, or nothing valid at all.
pub open spec fn cell_of_char(c: char) -> Option<Option<Mark>> {
    if c == ' ' {
        Some(None)
    } else {
        match mark_of_glyph(c) {
            Some(m) => Some(Some(m)),
            None => None,
        }
    }
}

/// True iff the first nine (space-padded) characters are all valid cell
/// characters. Characters beyond the ninth are ignored.
pub open spec fn spec_decode_ok(s: Seq<char>) -> bool {
    forall|i: int| 0 <= i < 9 ==> cell_of_char(char_at_or_space(s, i)) is Some
}

/// The cell decoded at position `i` (empty when the character is not a
/// valid cell character; only meaningful under `spec_decode_ok`).
pub open spec fn decoded_cell(s: Seq<char>, i: int) -> Option<Mark> {
    match cell_of_char(char_at_or_space(s, i)) {
        Some(c) => c,
        None => None,
    }
}

/// The board a string decodes to: nine positionally read cells, or a
/// failure if any of the first nine characters is invalid.
pub open spec fn spec_decode(s: Seq<char>) -> Result<Seq<Option<Mark>>, ParseError> {
    if spec_decode_ok(s) {
        Ok(Seq::new(9, |i: int| decoded_cell(s, i)))
    } else {
        Err(ParseError)
    }
}

impl Board {
    /// Unconditionally sets the cell at `(row, column)`; the caller must
    /// have confirmed it was empty.
    pub fn mark(&mut self, row: usize, column: usize, mark: Mark)
        requires
            row < 3,
            column < 3,
        ensures
            final(self)@ == old(self)@.update(row * 3 + column, Some(mark)),
    {
        let i = row * 3 + column;
        self.cells[i] = Some(mark);
    }

    /// Read-only lookup of the cell at `(row, column)`.
    pub fn at(&self, row: usize, column: usize) -> (r: Option<Mark>)
        requires
            row < 3,
            column < 3,
        ensures
            r == cell(self@, row as int, column as int),
    {
        self.cells[row * 3 + column]
    }

    /// True iff no cell is empty: every one of the nine lookups returns
    /// a mark.
    #[verifier::loop_isolation(false)]
    pub fn full(&self) -> (r: bool)
        ensures
            r == board_full(self@),
            r <==> forall|row: int, column: int|
                0 <= row < 3 && 0 <= column < 3 ==> cell(self@, row, column) is Some,
    {
        proof {
            lemma_full_by_coordinates(self@);
        }
        let mut i: usize = 0;
        while i < 9
            invariant
                i <= 9,
                forall|j: int| 0 <= j < i ==> self@[j] is Some,
            decreases 9 - i,
        {
            if self.cells[i].is_none() {
                return false;
            }
            i += 1;
        }
        true
    }
}

/// Fullness may equally be read cell by cell: the board is full exactly
/// when every in-range `(row, column)` lookup finds a mark.
pub proof fn lemma_full_by_coordinates(b: Seq<Option<Mark>>)
    requires
        b.len() == 9,
    ensures
        board_full(b) <==> forall|row: int, column: int|
            0 <= row < 3 && 0 <= column < 3 ==> cell(b, row, column) is Some,
{
    if forall|row: int, column: int|
        0 <= row < 3 && 0 <= column < 3 ==> cell(b, row, column) is Some {
        assert forall|i: int| 0 <= i < 9 implies b[i] is Some by {
            let row = i / 3;
            let column = i % 3;
            assert(0 <= row < 3 && 0 <= column < 3);
            assert(row * 3 + column == i);
            assert(cell(b, row, column) is Some);
        }
    }
}

impl Default for Board {
    /// A board starts with all nine cells empty.
    fn default() -> (b: Board)
        ensures
            b@ == empty_board(),
    {
        let b = Board {
            cells: [None, None, None, None, None, None, None, None, None],
        };
        proof {
            assert(b@ =~= empty_board());
        }
        b
    }
}

/// The one-character string a cell encodes as.
fn cell_str(c: Option<Mark>) -> (r: &'static str)
    ensures
        r@ == seq![cell_char(c)],
{
    proof {
        reveal_strlit(" ");
        assert(" "@ =~= seq![' ']);
    }
    match c {
        Some(m) => m.glyph_str(),
        None => " ",
    }
}

/// Appends the compact encoding of the board to the buffer: nine cell
/// characters in row-major order.
pub fn encode_by_ref(board: &Board, buffer: &mut String)
    ensures
        final(buffer)@ == old(buffer)@ + spec_encode(board@),
{
    let mut out = String::new();
    let mut i: usize = 0;
    while i < 9
        invariant
            i <= 9,
            out@ =~= spec_encode(board@).take(i as int),
        decreases 9 - i,
    {
        let g = cell_str(board.cells[i]);
        out.append(g);
        proof {
            assert(out@ =~= spec_encode(board@).take(i + 1));
        }
        i += 1;
    }
    proof {
        assert(spec_encode(board@).take(9) =~= spec_encode(board@));
    }
    buffer.append(out.as_str());
}

/// One rendered cell row of the grid: bars between the cells' characters
/// and a newline at the end.
pub open spec fn render_row(b: Seq<Option<Mark>>, row: int) -> Seq<char> {
    seq![
        '│',
        cell_char(b[row * 3]),
        '│',
        cell_char(b[row * 3 + 1]),
        '│',
        cell_char(b[row * 3 + 2]),
        '│',
        '\n',
    ]
}

/// The human-readable grid for a board: borders drawn with box
/// characters, one glyph or blank per cell.
pub open spec fn spec_render(b: Seq<Option<Mark>>) -> Seq<char> {
    seq!['┌', '─', '┬', '─', '┬', '─', '┐', '\n'] + render_row(b, 0)
        + seq!['├', '─', '┼', '─', '┼', '─', '┤', '\n'] + render_row(b, 1)
        + seq!['├', '─', '┼', '─', '┼', '─', '┤', '\n'] + render_row(b, 2)
        + seq!['└', '─', '┴', '─', '┴', '─', '┘', '\n']
}

impl Board {
    /// Appends one rendered row of the grid.
    fn render_row_into(&self, row: usize, out: &mut String)
        requires
            row < 3,
        ensures
            final(out)@ == old(out)@ + render_row(self@, row as int),
    {
        proof {
            reveal_strlit("│");
            reveal_strlit("│\n");
            assert("│"@ =~= seq!['│']);
            assert("│\n"@ =~= seq!['│', '\n']);
        }
        out.append("│");
        out.append(cell_str(self.cells[row * 3]));
        out.append("│");
        out.append(cell_str(self.cells[row * 3 + 1]));
        out.append("│");
        out.append(cell_str(self.cells[row * 3 + 2]));
        out.append("│\n");
        proof {
            assert(out@ =~= old(out)@ + render_row(self@, row as int));
        }
    }

    /// The human-readable grid for this board.
    pub fn render(&self) -> (r: String)
        ensures
            r@ == spec_render(self@),
    {
        proof {
            reveal_strlit("┌─┬─┬─┐\n");
            reveal_strlit("├─┼─┼─┤\n");
            reveal_strlit("└─┴─┴─┘\n");
            assert("┌─┬─┬─┐\n"@ =~= seq!['┌', '─', '┬', '─', '┬', '─', '┐', '\n']);
            assert("├─┼─┼─┤\n"@ =~= seq!['├', '─', '┼', '─', '┼', '─', '┤', '\n']);
            assert("└─┴─┴─┘\n"@ =~= seq!['└', '─', '┴', '─', '┴', '─', '┘', '\n']);
        }
        let mut out = String::from_str("┌─┬─┬─┐\n");
        self.render_row_into(0, &mut out);
        out.append("├─┼─┼─┤\n");
        self.render_row_into(1, &mut out);
        out.append("├─┼─┼─┤\n");
        self.render_row_into(2, &mut out);
        out.append("└─┴─┴─┘\n");
        proof {
            assert(out@ =~= spec_render(self@));
        }
        out
    }
}

/// Law: encoding a board and decoding the result gives the board back.
pub proof fn lemma_board_round_trip(b: Seq<Option<Mark>>)
    requires
        b.len() == 9,
    ensures
        spec_decode(spec_encode(b)) == Ok::<Seq<Option<Mark>>, ParseError>(b),
{
    let e = spec_encode(b);
    assert forall|i: int| 0 <= i < 9 implies cell_of_char(char_at_or_space(e, i)) == Some(b[i]) by {
        assert(char_at_or_space(e, i) == cell_char(b[i]));
        match b[i] {
            Some(m) => {
                crate::mark::lemma_glyph_round_trip(m);
            },
            None => {},
        }
    }
    assert(spec_decode_ok(e));
    assert(Seq::new(9, |i: int| decoded_cell(e, i)) =~= b);
}

/// Decodes a board from its compact encoding: the first nine characters
/// are read positionally (missing ones count as spaces, that is, empty
/// cells); any other character in a mark position is a parse failure.
pub fn decode(value: &str) -> (r: Result<Board, ParseError>)
    ensures
        r matches Ok(b) ==> spec_decode(value@) == Ok::<Seq<Option<Mark>>, ParseError>(b@),
        r is Err ==> spec_decode(value@) is Err,
{
    let len = value.unicode_len();
    let mut board = Board::default();
    let mut i: usize = 0;
    while i < 9
        invariant
            i <= 9,
            len == value@.len(),
            board@.len() == 9,
            forall|j: int| 0 <= j < i ==> cell_of_char(char_at_or_space(value@, j)) is Some,
            forall|j: int| 0 <= j < i ==> board@[j] == decoded_cell(value@, j),
        decreases 9 - i,
    {
        let c = if i < len {
            value.get_char(i)
        } else {
            ' '
        };
        assert(c == char_at_or_space(value@, i as int));
        if c == ' ' {
            board.cells[i] = None;
        } else if c == '○' {
            board.cells[i] = Some(Mark::Circle);
        } else if c == '☓' {
            board.cells[i] = Some(Mark::Cross);
        } else {
            assert(cell_of_char(char_at_or_space(value@, i as int)) is None);
            return Err(ParseError);
        }
        i += 1;
    }
    proof {
        assert(board@ =~= Seq::new(9, |j: int| decoded_cell(value@, j)));
    }
    Ok(board)
}

} // verus!
