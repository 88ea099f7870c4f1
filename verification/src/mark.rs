//! The player token and its one-glyph textual encoding.

pub mod parse_error;
pub mod parse_mark_error;

pub use parse_error::ParseError;
pub use parse_mark_error::ParseMarkError;

use vstd::prelude::*;
use vstd::string::StrSliceExecFns;
use vstd::string::StringExecFns;

verus! {

/// One of the two player tokens. Circle always moves first.
#[derive(Clone, Copy, Debug, PartialEq, Eq, Structural)]
pub enum Mark {
    Circle,
    Cross,
}

/// The glyph that encodes a mark: Circle is a white circle, Cross a
/// saltire.
pub open spec fn glyph(m: Mark) -> char {
    match m {
        Mark::Circle => '○',
        Mark::Cross => '☓',
    }
}

/// The mark a glyph stands for, if any.
pub open spec fn mark_of_glyph(c: char) -> Option<Mark> {
    if c == '○' {
        Some(Mark::Circle)
    } else if c == '☓' {
        Some(Mark::Cross)
    } else {
        None
    }
}

/// Exact-match parse of a whole string: one glyph, nothing else.
pub open spec fn spec_parse_mark(s: Seq<char>) -> Result<Mark, ParseError> {
    if s.len() == 1 {
        match mark_of_glyph(s[0]) {
            Some(m) => Ok(m),
            None => Err(ParseError),
        }
    } else {
        Err(ParseError)
    }
}

impl Mark {
    /// The glyph for this mark, as a character.
    pub fn glyph_char(&self) -> (c: char)
        ensures
            c == glyph(*self),
    {
        match self {
            Mark::Circle => '○',
            Mark::Cross => '☓',
        }
    }

    /// The glyph for this mark, as a one-character string.
    pub fn glyph_str(&self) -> (r: &'static str)
        ensures
            r@ == seq![glyph(*self)],
    {
        proof {
            reveal_strlit("○");
            reveal_strlit("☓");
            assert("○"@ =~= seq!['○']);
            assert("☓"@ =~= seq!['☓']);
        }
        match self {
            Mark::Circle => "○",
            Mark::Cross => "☓",
        }
    }

    /// Parses a mark from its glyph. The whole string must be exactly the
    /// one glyph; anything else is rejected.
    pub fn from_str(s: &str) -> (r: Result<Mark, ParseError>)
        ensures
            r == spec_parse_mark(s@),
    {
        let len = s.unicode_len();
        if len != 1 {
            return Err(ParseError);
        }
        let c = s.get_char(0);
        if c == '○' {
            Ok(Mark::Circle)
        } else if c == '☓' {
            Ok(Mark::Cross)
        } else {
            Err(ParseError)
        }
    }
}

impl Default for Mark {
    /// Circle moves first, so Circle is the default token.
    fn default() -> (m: Mark)
        ensures
            m == Mark::Circle,
    {
        Mark::Circle
    }
}

/// A mark's glyph decodes back to the mark, and the glyphs are distinct
/// from the space and semicolon the other encodings use.
pub proof fn lemma_glyph_round_trip(m: Mark)
    ensures
        mark_of_glyph(glyph(m)) == Some(m),
        spec_parse_mark(seq![glyph(m)]) == Ok::<Mark, ParseError>(m),
        glyph(m) != ' ',
        glyph(m) != ';',
{
    assert(seq![glyph(m)].len() == 1);
    assert(seq![glyph(m)][0] == glyph(m));
}

/// Appends the mark's glyph to the buffer.
pub fn encode_by_ref(mark: &Mark, buffer: &mut String)
    ensures
        final(buffer)@ == old(buffer)@ + seq![glyph(*mark)],
{
    let g = mark.glyph_str();
    buffer.append(g);
    proof {
        assert(buffer@ =~= old(buffer)@ + seq![glyph(*mark)]);
    }
}

} // verus!
