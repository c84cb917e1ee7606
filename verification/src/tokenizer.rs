//! Lexical analysis: source text to a sequence of classified tokens.
//!
//! Every byte of the input is accounted for: whitespace and `//` line
//! comments are elided, every keyword, literal, variable reference and
//! symbol becomes a token with its byte span, and any byte that starts no
//! token becomes an explicit `Error` token rather than being dropped.

use vstd::prelude::*;
use vstd::string::StringSliceAdditionalSpecFns;

verus! {

/// A classified lexical unit of the Logo language.
#[derive(Debug, Clone, PartialEq, Eq)]
pub enum Token {
    /// A byte sequence that matches no defined pattern.
    Error,
    /// The `PENUP` keyword.
    PenUp,
    /// The `PENDOWN` keyword.
    PenDown,
    /// The `FORWARD` keyword.
    Forward,
    /// The `BACK` keyword.
    Back,
    /// The `LEFT` keyword.
    Left,
    /// The `RIGHT` keyword.
    Right,
    /// The `SETPENCOLOR` keyword.
    SetPenColor,
    /// The `TURN` keyword.
    Turn,
    /// The `SETHEADING` keyword.
    SetHeading,
    /// The `SETX` keyword.
    SetX,
    /// The `SETY` keyword.
    SetY,
    /// The `MAKE` keyword.
    Make,
    /// The `ADDASSIGN` keyword.
    AddAssign,
    /// A quoted literal: the bytes after the leading `"`.
    Value(Vec<u8>),
    /// A variable reference: the bytes after the leading `:`.
    Variable(Vec<u8>),
    /// The `XCOR` query keyword.
    XCOR,
    /// The `YCOR` query keyword.
    YCOR,
    /// The `HEADING` query keyword.
    HEADING,
    /// The `COLOR` query keyword.
    COLOR,
    /// The `IF` keyword.
    If,
    /// The `WHILE` keyword.
    While,
    /// The `EQ` keyword.
    Equal,
    /// The `NE` keyword.
    NotEqual,
    /// The `LT` keyword.
    LessThan,
    /// The `GT` keyword.
    GreaterThan,
    /// The `AND` keyword.
    And,
    /// The `OR` keyword.
    Or,
    /// The `[` symbol opening a block.
    LParen,
    /// The `]` symbol closing a block.
    RParen,
    /// The `+` symbol.
    Add,
    /// The `-` symbol.
    Sub,
    /// The `*` symbol.
    Mul,
    /// The `/` symbol.
    Div,
}

/// The mathematical shape of a token: payloads are byte sequences.
pub enum TokenV {
    Error,
    PenUp,
    PenDown,
    Forward,
    Back,
    Left,
    Right,
    SetPenColor,
    Turn,
    SetHeading,
    SetX,
    SetY,
    Make,
    AddAssign,
    Value(Seq<u8>),
    Variable(Seq<u8>),
    XCOR,
    YCOR,
    HEADING,
    COLOR,
    If,
    While,
    Equal,
    NotEqual,
    LessThan,
    GreaterThan,
    And,
    Or,
    LParen,
    RParen,
    Add,
    Sub,
    Mul,
    Div,
}

impl Token {
    /// The mathematical value of a token.
    pub open spec fn v(&self) -> TokenV {
        match self {
            Token::Error => TokenV::Error,
            Token::PenUp => TokenV::PenUp,
            Token::PenDown => TokenV::PenDown,
            Token::Forward => TokenV::Forward,
            Token::Back => TokenV::Back,
            Token::Left => TokenV::Left,
            Token::Right => TokenV::Right,
            Token::SetPenColor => TokenV::SetPenColor,
            Token::Turn => TokenV::Turn,
            Token::SetHeading => TokenV::SetHeading,
            Token::SetX => TokenV::SetX,
            Token::SetY => TokenV::SetY,
            Token::Make => TokenV::Make,
            Token::AddAssign => TokenV::AddAssign,
            Token::Value(s) => TokenV::Value(s@),
            Token::Variable(s) => TokenV::Variable(s@),
            Token::XCOR => TokenV::XCOR,
            Token::YCOR => TokenV::YCOR,
            Token::HEADING => TokenV::HEADING,
            Token::COLOR => TokenV::COLOR,
            Token::If => TokenV::If,
            Token::While => TokenV::While,
            Token::Equal => TokenV::Equal,
            Token::NotEqual => TokenV::NotEqual,
            Token::LessThan => TokenV::LessThan,
            Token::GreaterThan => TokenV::GreaterThan,
            Token::And => TokenV::And,
            Token::Or => TokenV::Or,
            Token::LParen => TokenV::LParen,
            Token::RParen => TokenV::RParen,
            Token::Add => TokenV::Add,
            Token::Sub => TokenV::Sub,
            Token::Mul => TokenV::Mul,
            Token::Div => TokenV::Div,
        }
    }
}

/// Bytes the lexer skips between tokens: space, tab, newline, form feed.
pub open spec fn is_skip_byte(b: u8) -> bool {
    b == 0x20 || b == 0x09 || b == 0x0a || b == 0x0c
}

/// Bytes that end a quoted literal or a variable reference: ASCII
/// whitespace or a double quote.  This is a deliberate byte-level rule:
/// a non-ASCII whitespace character is treated as atom text, not as a
/// delimiter.
pub open spec fn is_atom_end(b: u8) -> bool {
    b == 0x20 || b == 0x09 || b == 0x0a || b == 0x0b || b == 0x0c || b == 0x0d || b == 0x22
}

/// The spelling of each fixed keyword, as bytes.
pub open spec fn keyword_text(t: TokenV) -> Seq<u8> {
    match t {
        TokenV::PenUp => seq![0x50u8, 0x45, 0x4e, 0x55, 0x50],  // PENUP
        TokenV::PenDown => seq![0x50u8, 0x45, 0x4e, 0x44, 0x4f, 0x57, 0x4e],  // PENDOWN
        TokenV::Forward => seq![0x46u8, 0x4f, 0x52, 0x57, 0x41, 0x52, 0x44],  // FORWARD
        TokenV::Back => seq![0x42u8, 0x41, 0x43, 0x4b],  // BACK
        TokenV::Left => seq![0x4cu8, 0x45, 0x46, 0x54],  // LEFT
        TokenV::Right => seq![0x52u8, 0x49, 0x47, 0x48, 0x54],  // RIGHT
        TokenV::SetPenColor => seq![0x53u8, 0x45, 0x54, 0x50, 0x45, 0x4e, 0x43, 0x4f, 0x4c, 0x4f, 0x52],  // SETPENCOLOR
        TokenV::Turn => seq![0x54u8, 0x55, 0x52, 0x4e],  // TURN
        TokenV::SetHeading => seq![0x53u8, 0x45, 0x54, 0x48, 0x45, 0x41, 0x44, 0x49, 0x4e, 0x47],  // SETHEADING
        TokenV::SetX => seq![0x53u8, 0x45, 0x54, 0x58],  // SETX
        TokenV::SetY => seq![0x53u8, 0x45, 0x54, 0x59],  // SETY
        TokenV::Make => seq![0x4du8, 0x41, 0x4b, 0x45],  // MAKE
        TokenV::AddAssign => seq![0x41u8, 0x44, 0x44, 0x41, 0x53, 0x53, 0x49, 0x47, 0x4e],  // ADDASSIGN
        TokenV::XCOR => seq![0x58u8, 0x43, 0x4f, 0x52],  // XCOR
        TokenV::YCOR => seq![0x59u8, 0x43, 0x4f, 0x52],  // YCOR
        TokenV::HEADING => seq![0x48u8, 0x45, 0x41, 0x44, 0x49, 0x4e, 0x47],  // HEADING
        TokenV::COLOR => seq![0x43u8, 0x4f, 0x4c, 0x4f, 0x52],  // COLOR
        TokenV::If => seq![0x49u8, 0x46],  // IF
        TokenV::While => seq![0x57u8, 0x48, 0x49, 0x4c, 0x45],  // WHILE
        TokenV::Equal => seq![0x45u8, 0x51],  // EQ
        TokenV::NotEqual => seq![0x4eu8, 0x45],  // NE
        TokenV::LessThan => seq![0x4cu8, 0x54],  // LT
        TokenV::GreaterThan => seq![0x47u8, 0x54],  // GT
        TokenV::And => seq![0x41u8, 0x4e, 0x44],  // AND
        TokenV::Or => seq![0x4fu8, 0x52],  // OR
        TokenV::LParen => seq![0x5bu8],  // [
        TokenV::RParen => seq![0x5du8],  // ]
        TokenV::Add => seq![0x2bu8],  // +
        TokenV::Sub => seq![0x2du8],  // -
        TokenV::Mul => seq![0x2au8],  // *
        TokenV::Div => seq![0x2fu8],  // /
        _ => seq![],
    }
}

/// Does `s` carry the spelling of keyword token `t` starting at `i`?
pub open spec fn kw_matches(s: Seq<u8>, i: int, t: TokenV) -> bool {
    let w = keyword_text(t);
    i + w.len() <= s.len() && s.subrange(i, i + w.len() as int) == w
}


/// The keyword, if any, whose spelling stands at position `i` of `s`.
///
/// No keyword is a prefix of another, so at most one can match.
pub open spec fn kw_at(s: Seq<u8>, i: int) -> Option<TokenV> {
    if kw_matches(s, i, TokenV::PenUp) {
        Some(TokenV::PenUp)
    } else if kw_matches(s, i, TokenV::PenDown) {
        Some(TokenV::PenDown)
    } else if kw_matches(s, i, TokenV::Forward) {
        Some(TokenV::Forward)
    } else if kw_matches(s, i, TokenV::Back) {
        Some(TokenV::Back)
    } else if kw_matches(s, i, TokenV::Left) {
        Some(TokenV::Left)
    } else if kw_matches(s, i, TokenV::Right) {
        Some(TokenV::Right)
    } else if kw_matches(s, i, TokenV::SetPenColor) {
        Some(TokenV::SetPenColor)
    } else if kw_matches(s, i, TokenV::Turn) {
        Some(TokenV::Turn)
    } else if kw_matches(s, i, TokenV::SetHeading) {
        Some(TokenV::SetHeading)
    } else if kw_matches(s, i, TokenV::SetX) {
        Some(TokenV::SetX)
    } else if kw_matches(s, i, TokenV::SetY) {
        Some(TokenV::SetY)
    } else if kw_matches(s, i, TokenV::Make) {
        Some(TokenV::Make)
    } else if kw_matches(s, i, TokenV::AddAssign) {
        Some(TokenV::AddAssign)
    } else if kw_matches(s, i, TokenV::XCOR) {
        Some(TokenV::XCOR)
    } else if kw_matches(s, i, TokenV::YCOR) {
        Some(TokenV::YCOR)
    } else if kw_matches(s, i, TokenV::HEADING) {
        Some(TokenV::HEADING)
    } else if kw_matches(s, i, TokenV::COLOR) {
        Some(TokenV::COLOR)
    } else if kw_matches(s, i, TokenV::If) {
        Some(TokenV::If)
    } else if kw_matches(s, i, TokenV::While) {
        Some(TokenV::While)
    } else if kw_matches(s, i, TokenV::Equal) {
        Some(TokenV::Equal)
    } else if kw_matches(s, i, TokenV::NotEqual) {
        Some(TokenV::NotEqual)
    } else if kw_matches(s, i, TokenV::LessThan) {
        Some(TokenV::LessThan)
    } else if kw_matches(s, i, TokenV::GreaterThan) {
        Some(TokenV::GreaterThan)
    } else if kw_matches(s, i, TokenV::And) {
        Some(TokenV::And)
    } else if kw_matches(s, i, TokenV::Or) {
        Some(TokenV::Or)
    } else {
        None
    }
}

/// Find the keyword standing at position `i`, with its length.
#[verifier::rlimit(100)]
fn kw_lookup(s: &[u8], i: usize) -> (r: Option<(Token, usize)>)
    requires
        i < s@.len(),
    ensures
        match r {
            Some(p) => kw_at(s@, i as int) == Some(p.0.v()) && p.1 == keyword_text(p.0.v()).len()
                && i + p.1 <= s@.len(),
            None => kw_at(s@, i as int) is None,
        },
{
    let n = s.len();
    if n - i >= 5 && s[i] == 0x50 && s[i + 1] == 0x45 && s[i + 2] == 0x4e && s[i + 3] == 0x55 && s[i + 4] == 0x50 {
        proof {
            assert(s@.subrange(i as int, i + 5) =~= keyword_text(TokenV::PenUp));
        }
        return Some((Token::PenUp, 5));
    }
    proof {
        assert(!kw_matches(s@, i as int, TokenV::PenUp));
    }
    if n - i >= 7 && s[i] == 0x50 && s[i + 1] == 0x45 && s[i + 2] == 0x4e && s[i + 3] == 0x44 && s[i + 4] == 0x4f && s[i + 5] == 0x57 && s[i + 6] == 0x4e {
        proof {
            assert(s@.subrange(i as int, i + 7) =~= keyword_text(TokenV::PenDown));
        }
        return Some((Token::PenDown, 7));
    }
    proof {
        assert(!kw_matches(s@, i as int, TokenV::PenDown));
    }
    if n - i >= 7 && s[i] == 0x46 && s[i + 1] == 0x4f && s[i + 2] == 0x52 && s[i + 3] == 0x57 && s[i + 4] == 0x41 && s[i + 5] == 0x52 && s[i + 6] == 0x44 {
        proof {
            assert(s@.subrange(i as int, i + 7) =~= keyword_text(TokenV::Forward));
        }
        return Some((Token::Forward, 7));
    }
    proof {
        assert(!kw_matches(s@, i as int, TokenV::Forward));
    }
    if n - i >= 4 && s[i] == 0x42 && s[i + 1] == 0x41 && s[i + 2] == 0x43 && s[i + 3] == 0x4b {
        proof {
            assert(s@.subrange(i as int, i + 4) =~= keyword_text(TokenV::Back));
        }
        return Some((Token::Back, 4));
    }
    proof {
        assert(!kw_matches(s@, i as int, TokenV::Back));
    }
    if n - i >= 4 && s[i] == 0x4c && s[i + 1] == 0x45 && s[i + 2] == 0x46 && s[i + 3] == 0x54 {
        proof {
            assert(s@.subrange(i as int, i + 4) =~= keyword_text(TokenV::Left));
        }
        return Some((Token::Left, 4));
    }
    proof {
        assert(!kw_matches(s@, i as int, TokenV::Left));
    }
    if n - i >= 5 && s[i] == 0x52 && s[i + 1] == 0x49 && s[i + 2] == 0x47 && s[i + 3] == 0x48 && s[i + 4] == 0x54 {
        proof {
            assert(s@.subrange(i as int, i + 5) =~= keyword_text(TokenV::Right));
        }
        return Some((Token::Right, 5));
    }
    proof {
        assert(!kw_matches(s@, i as int, TokenV::Right));
    }
    if n - i >= 11 && s[i] == 0x53 && s[i + 1] == 0x45 && s[i + 2] == 0x54 && s[i + 3] == 0x50 && s[i + 4] == 0x45 && s[i + 5] == 0x4e && s[i + 6] == 0x43 && s[i + 7] == 0x4f && s[i + 8] == 0x4c && s[i + 9] == 0x4f && s[i + 10] == 0x52 {
        proof {
            assert(s@.subrange(i as int, i + 11) =~= keyword_text(TokenV::SetPenColor));
        }
        return Some((Token::SetPenColor, 11));
    }
    proof {
        assert(!kw_matches(s@, i as int, TokenV::SetPenColor));
    }
    if n - i >= 4 && s[i] == 0x54 && s[i + 1] == 0x55 && s[i + 2] == 0x52 && s[i + 3] == 0x4e {
        proof {
            assert(s@.subrange(i as int, i + 4) =~= keyword_text(TokenV::Turn));
        }
        return Some((Token::Turn, 4));
    }
    proof {
        assert(!kw_matches(s@, i as int, TokenV::Turn));
    }
    if n - i >= 10 && s[i] == 0x53 && s[i + 1] == 0x45 && s[i + 2] == 0x54 && s[i + 3] == 0x48 && s[i + 4] == 0x45 && s[i + 5] == 0x41 && s[i + 6] == 0x44 && s[i + 7] == 0x49 && s[i + 8] == 0x4e && s[i + 9] == 0x47 {
        proof {
            assert(s@.subrange(i as int, i + 10) =~= keyword_text(TokenV::SetHeading));
        }
        return Some((Token::SetHeading, 10));
    }
    proof {
        assert(!kw_matches(s@, i as int, TokenV::SetHeading));
    }
    if n - i >= 4 && s[i] == 0x53 && s[i + 1] == 0x45 && s[i + 2] == 0x54 && s[i + 3] == 0x58 {
        proof {
            assert(s@.subrange(i as int, i + 4) =~= keyword_text(TokenV::SetX));
        }
        return Some((Token::SetX, 4));
    }
    proof {
        assert(!kw_matches(s@, i as int, TokenV::SetX));
    }
    if n - i >= 4 && s[i] == 0x53 && s[i + 1] == 0x45 && s[i + 2] == 0x54 && s[i + 3] == 0x59 {
        proof {
            assert(s@.subrange(i as int, i + 4) =~= keyword_text(TokenV::SetY));
        }
        return Some((Token::SetY, 4));
    }
    proof {
        assert(!kw_matches(s@, i as int, TokenV::SetY));
    }
    if n - i >= 4 && s[i] == 0x4d && s[i + 1] == 0x41 && s[i + 2] == 0x4b && s[i + 3] == 0x45 {
        proof {
            assert(s@.subrange(i as int, i + 4) =~= keyword_text(TokenV::Make));
        }
        return Some((Token::Make, 4));
    }
    proof {
        assert(!kw_matches(s@, i as int, TokenV::Make));
    }
    if n - i >= 9 && s[i] == 0x41 && s[i + 1] == 0x44 && s[i + 2] == 0x44 && s[i + 3] == 0x41 && s[i + 4] == 0x53 && s[i + 5] == 0x53 && s[i + 6] == 0x49 && s[i + 7] == 0x47 && s[i + 8] == 0x4e {
        proof {
            assert(s@.subrange(i as int, i + 9) =~= keyword_text(TokenV::AddAssign));
        }
        return Some((Token::AddAssign, 9));
    }
    proof {
        assert(!kw_matches(s@, i as int, TokenV::AddAssign));
    }
    if n - i >= 4 && s[i] == 0x58 && s[i + 1] == 0x43 && s[i + 2] == 0x4f && s[i + 3] == 0x52 {
        proof {
            assert(s@.subrange(i as int, i + 4) =~= keyword_text(TokenV::XCOR));
        }
        return Some((Token::XCOR, 4));
    }
    proof {
        assert(!kw_matches(s@, i as int, TokenV::XCOR));
    }
    if n - i >= 4 && s[i] == 0x59 && s[i + 1] == 0x43 && s[i + 2] == 0x4f && s[i + 3] == 0x52 {
        proof {
            assert(s@.subrange(i as int, i + 4) =~= keyword_text(TokenV::YCOR));
        }
        return Some((Token::YCOR, 4));
    }
    proof {
        assert(!kw_matches(s@, i as int, TokenV::YCOR));
    }
    if n - i >= 7 && s[i] == 0x48 && s[i + 1] == 0x45 && s[i + 2] == 0x41 && s[i + 3] == 0x44 && s[i + 4] == 0x49 && s[i + 5] == 0x4e && s[i + 6] == 0x47 {
        proof {
            assert(s@.subrange(i as int, i + 7) =~= keyword_text(TokenV::HEADING));
        }
        return Some((Token::HEADING, 7));
    }
    proof {
        assert(!kw_matches(s@, i as int, TokenV::HEADING));
    }
    if n - i >= 5 && s[i] == 0x43 && s[i + 1] == 0x4f && s[i + 2] == 0x4c && s[i + 3] == 0x4f && s[i + 4] == 0x52 {
        proof {
            assert(s@.subrange(i as int, i + 5) =~= keyword_text(TokenV::COLOR));
        }
        return Some((Token::COLOR, 5));
    }
    proof {
        assert(!kw_matches(s@, i as int, TokenV::COLOR));
    }
    if n - i >= 2 && s[i] == 0x49 && s[i + 1] == 0x46 {
        proof {
            assert(s@.subrange(i as int, i + 2) =~= keyword_text(TokenV::If));
        }
        return Some((Token::If, 2));
    }
    proof {
        assert(!kw_matches(s@, i as int, TokenV::If));
    }
    if n - i >= 5 && s[i] == 0x57 && s[i + 1] == 0x48 && s[i + 2] == 0x49 && s[i + 3] == 0x4c && s[i + 4] == 0x45 {
        proof {
            assert(s@.subrange(i as int, i + 5) =~= keyword_text(TokenV::While));
        }
        return Some((Token::While, 5));
    }
    proof {
        assert(!kw_matches(s@, i as int, TokenV::While));
    }
    if n - i >= 2 && s[i] == 0x45 && s[i + 1] == 0x51 {
        proof {
            assert(s@.subrange(i as int, i + 2) =~= keyword_text(TokenV::Equal));
        }
        return Some((Token::Equal, 2));
    }
    proof {
        assert(!kw_matches(s@, i as int, TokenV::Equal));
    }
    if n - i >= 2 && s[i] == 0x4e && s[i + 1] == 0x45 {
        proof {
            assert(s@.subrange(i as int, i + 2) =~= keyword_text(TokenV::NotEqual));
        }
        return Some((Token::NotEqual, 2));
    }
    proof {
        assert(!kw_matches(s@, i as int, TokenV::NotEqual));
    }
    if n - i >= 2 && s[i] == 0x4c && s[i + 1] == 0x54 {
        proof {
            assert(s@.subrange(i as int, i + 2) =~= keyword_text(TokenV::LessThan));
        }
        return Some((Token::LessThan, 2));
    }
    proof {
        assert(!kw_matches(s@, i as int, TokenV::LessThan));
    }
    if n - i >= 2 && s[i] == 0x47 && s[i + 1] == 0x54 {
        proof {
            assert(s@.subrange(i as int, i + 2) =~= keyword_text(TokenV::GreaterThan));
        }
        return Some((Token::GreaterThan, 2));
    }
    proof {
        assert(!kw_matches(s@, i as int, TokenV::GreaterThan));
    }
    if n - i >= 3 && s[i] == 0x41 && s[i + 1] == 0x4e && s[i + 2] == 0x44 {
        proof {
            assert(s@.subrange(i as int, i + 3) =~= keyword_text(TokenV::And));
        }
        return Some((Token::And, 3));
    }
    proof {
        assert(!kw_matches(s@, i as int, TokenV::And));
    }
    if n - i >= 2 && s[i] == 0x4f && s[i + 1] == 0x52 {
        proof {
            assert(s@.subrange(i as int, i + 2) =~= keyword_text(TokenV::Or));
        }
        return Some((Token::Or, 2));
    }
    proof {
        assert(!kw_matches(s@, i as int, TokenV::Or));
    }
    None
}

/// Position of the first newline at or after `i`, if any.
pub open spec fn first_nl(s: Seq<u8>, i: int) -> Option<int>
    decreases s.len() - i,
{
    if i < 0 || i >= s.len() {
        None
    } else if s[i] == 0x0a {
        Some(i)
    } else {
        first_nl(s, i + 1)
    }
}

/// First position at or after `i` whose byte ends an atom, or the length.
pub open spec fn atom_end(s: Seq<u8>, i: int) -> int
    decreases s.len() - i,
{
    if i < 0 || i >= s.len() {
        s.len() as int
    } else if is_atom_end(s[i]) {
        i
    } else {
        atom_end(s, i + 1)
    }
}

/// The token sequence of `s` from position `i` on: each token with the
/// byte span it was read from.  Whitespace is elided, and a `//` comment
/// is elided up to and including the next newline, or to the end of the
/// input; a byte that starts no token becomes an `Error` token of its own.
pub open spec fn lex_at(s: Seq<u8>, i: int) -> Seq<(TokenV, int, int)>
    decreases s.len() - i,
{
    if i < 0 || i >= s.len() {
        Seq::empty()
    } else if is_skip_byte(s[i]) {
        lex_at(s, i + 1)
    } else if s[i] == 0x2f && i + 1 < s.len() && s[i + 1] == 0x2f {
        match first_nl(s, i + 2) {
            Some(nl) => {
                let nx = if i < nl + 1 && nl + 1 <= s.len() {
                    nl + 1
                } else {
                    i + 1
                };
                lex_at(s, nx)
            },
            None => Seq::empty(),
        }
    } else if kw_at(s, i) is Some {
        let t = kw_at(s, i)->0;
        let l = keyword_text(t).len() as int;
        let nx = if l >= 1 {
            i + l
        } else {
            i + 1
        };
        seq![(t, i, nx)] + lex_at(s, nx)
    } else if s[i] == 0x22 {
        let j0 = atom_end(s, i + 1);
        let j = if i + 1 <= j0 && j0 <= s.len() {
            j0
        } else {
            i + 1
        };
        seq![(TokenV::Value(s.subrange(i + 1, j)), i, j)] + lex_at(s, j)
    } else if s[i] == 0x3a {
        let j0 = atom_end(s, i + 1);
        let j = if i + 1 <= j0 && j0 <= s.len() {
            j0
        } else {
            i + 1
        };
        seq![(TokenV::Variable(s.subrange(i + 1, j)), i, j)] + lex_at(s, j)
    } else if s[i] == 0x5b {
        seq![(TokenV::LParen, i, i + 1)] + lex_at(s, i + 1)
    } else if s[i] == 0x5d {
        seq![(TokenV::RParen, i, i + 1)] + lex_at(s, i + 1)
    } else if s[i] == 0x2b {
        seq![(TokenV::Add, i, i + 1)] + lex_at(s, i + 1)
    } else if s[i] == 0x2d {
        seq![(TokenV::Sub, i, i + 1)] + lex_at(s, i + 1)
    } else if s[i] == 0x2a {
        seq![(TokenV::Mul, i, i + 1)] + lex_at(s, i + 1)
    } else if s[i] == 0x2f {
        seq![(TokenV::Div, i, i + 1)] + lex_at(s, i + 1)
    } else {
        seq![(TokenV::Error, i, i + 1)] + lex_at(s, i + 1)
    }
}

/// The views of a produced token list, for stating contracts.
pub open spec fn lexed_views(r: Seq<(Token, usize, usize)>) -> Seq<(TokenV, int, int)> {
    r.map_values(|p: (Token, usize, usize)| (p.0.v(), p.1 as int, p.2 as int))
}

fn is_skip(b: u8) -> (r: bool)
    ensures
        r == is_skip_byte(b),
{
    b == 0x20 || b == 0x09 || b == 0x0a || b == 0x0c
}

fn is_atom_end_b(b: u8) -> (r: bool)
    ensures
        r == is_atom_end(b),
{
    b == 0x20 || b == 0x09 || b == 0x0a || b == 0x0b || b == 0x0c || b == 0x0d || b == 0x22
}

/// Find the first newline at or after `from`.
fn find_nl(s: &[u8], from: usize) -> (r: Option<usize>)
    requires
        from <= s@.len(),
    ensures
        match r {
            Some(j) => first_nl(s@, from as int) == Some(j as int) && from <= j < s@.len(),
            None => first_nl(s@, from as int) is None,
        },
{
    let n = s.len();
    let mut j = from;
    while j < n && s[j] != 0x0a
        invariant
            from <= j <= n,
            n == s@.len(),
            first_nl(s@, from as int) == first_nl(s@, j as int),
        decreases n - j,
    {
        j = j + 1;
    }
    if j < n {
        Some(j)
    } else {
        None
    }
}

/// Find the end of an atom that starts at `from`.
fn scan_atom(s: &[u8], from: usize) -> (j: usize)
    requires
        from <= s@.len(),
    ensures
        j as int == atom_end(s@, from as int),
        from <= j <= s@.len(),
{
    let n = s.len();
    let mut j = from;
    while j < n && !is_atom_end_b(s[j])
        invariant
            from <= j <= n,
            n == s@.len(),
            atom_end(s@, from as int) == atom_end(s@, j as int),
        decreases n - j,
    {
        j = j + 1;
    }
    j
}

/// Copy the bytes of `s` in `[a, b)` into a fresh vector.
pub fn copy_range(s: &[u8], a: usize, b: usize) -> (v: Vec<u8>)
    requires
        a <= b <= s@.len(),
    ensures
        v@ == s@.subrange(a as int, b as int),
{
    let mut v: Vec<u8> = Vec::new();
    let mut k = a;
    while k < b
        invariant
            a <= k <= b <= s@.len(),
            v@ =~= s@.subrange(a as int, k as int),
        decreases b - k,
    {
        v.push(s[k]);
        proof {
            assert(v@ =~= s@.subrange(a as int, k + 1));
        }
        k = k + 1;
    }
    v
}

/// Break a byte string into its tokens, each with its byte span.
#[verifier::rlimit(100)]
pub fn lex(s: &[u8]) -> (r: Vec<(Token, usize, usize)>)
    ensures
        lexed_views(r@) == lex_at(s@, 0),
{
    let n = s.len();
    let mut out: Vec<(Token, usize, usize)> = Vec::new();
    let mut i: usize = 0;
    while i < n
        invariant
            0 <= i <= n,
            n == s@.len(),
            lex_at(s@, 0) =~~= lexed_views(out@) + lex_at(s@, i as int),
        decreases n - i,
    {
        let ghost prev = i as int;
        let b = s[i];
        if is_skip(b) {
            i = i + 1;
        } else if b == 0x2f && i + 1 < n && s[i + 1] == 0x2f {
            match find_nl(s, i + 2) {
                Some(nl) => {
                    i = nl + 1;
                },
                None => {
                    i = n;
                },
            }
        } else {
            let kw = kw_lookup(s, i);
            if kw.is_some() {
                let (t, l) = kw.unwrap();
                out.push((t, i, i + l));
                proof {
                    assert(lexed_views(out@) =~~= lexed_views(out@.drop_last()) + seq![(out@.last().0.v(), prev, prev + l)]);
                }
                i = i + l;
            } else if b == 0x22 || b == 0x3a {
                let j = scan_atom(s, i + 1);
                let payload = copy_range(s, i + 1, j);
                let t = if b == 0x22 {
                    Token::Value(payload)
                } else {
                    Token::Variable(payload)
                };
                out.push((t, i, j));
                proof {
                    assert(lexed_views(out@) =~~= lexed_views(out@.drop_last()) + seq![(out@.last().0.v(), prev, j as int)]);
                }
                i = j;
            } else {
                let t = if b == 0x5b {
                    Token::LParen
                } else if b == 0x5d {
                    Token::RParen
                } else if b == 0x2b {
                    Token::Add
                } else if b == 0x2d {
                    Token::Sub
                } else if b == 0x2a {
                    Token::Mul
                } else if b == 0x2f {
                    Token::Div
                } else {
                    Token::Error
                };
                out.push((t, i, i + 1));
                proof {
                    assert(lexed_views(out@) =~~= lexed_views(out@.drop_last()) + seq![(out@.last().0.v(), prev, prev + 1)]);
                }
                i = i + 1;
            }
        }
        proof {
            assert(lex_at(s@, 0) =~~= lexed_views(out@) + lex_at(s@, i as int));
        }
    }
    proof {
        assert(lex_at(s@, i as int) =~= Seq::<(TokenV, int, int)>::empty());
        assert(lex_at(s@, 0) =~~= lexed_views(out@));
    }
    out
}

/// Break Logo source text into tokens, each with its byte span.
pub fn tokenize(content: &str) -> (r: Vec<(Token, usize, usize)>)
    ensures
        lexed_views(r@) == lex_at(content.spec_bytes(), 0),
{
    let bytes = content.as_bytes();
    lex(bytes)
}

/// The literal text a token was read from.  An `Error` token does not
/// carry its text, so it has none here.
pub open spec fn token_text(t: TokenV) -> Seq<u8> {
    match t {
        TokenV::Value(s) => seq![0x22u8] + s,
        TokenV::Variable(s) => seq![0x3au8] + s,
        _ => keyword_text(t),
    }
}

/// Can a token be read back from its own text?  Every token the lexer
/// emits satisfies this, except `Error`, which does not carry its text:
/// a quoted literal or variable reference never holds an atom-ending byte.
pub open spec fn relexable(t: TokenV) -> bool {
    match t {
        TokenV::Error => false,
        TokenV::Value(s) => forall|k: int| 0 <= k < s.len() ==> !is_atom_end(#[trigger] s[k]),
        TokenV::Variable(s) => forall|k: int| 0 <= k < s.len() ==> !is_atom_end(#[trigger] s[k]),
        _ => true,
    }
}

/// An atom with no ending byte runs to the end of the input.
proof fn lemma_atom_end_clean(s: Seq<u8>, i: int)
    requires
        0 <= i <= s.len(),
        forall|k: int| i <= k < s.len() ==> !is_atom_end(#[trigger] s[k]),
    ensures
        atom_end(s, i) == s.len(),
    decreases s.len() - i,
{
    if i < s.len() {
        lemma_atom_end_clean(s, i + 1);
    }
}

/// Lexing the literal text of any single text-carrying token reproduces
/// exactly that token, spanning the whole text (lexer idempotence).
#[verifier::rlimit(100)]
pub proof fn lemma_lex_single_token(t: TokenV)
    requires
        relexable(t),
    ensures
        lex_at(token_text(t), 0) =~= seq![(t, 0int, token_text(t).len() as int)],
{
    let s = token_text(t);
    match t {

        TokenV::PenUp => {
            assert(kw_matches(s, 0, TokenV::PenUp)) by {
                assert(s.subrange(0, 5) =~= keyword_text(TokenV::PenUp));
            }
            assert(lex_at(s, 5) =~= Seq::<(TokenV, int, int)>::empty());
        },
        TokenV::PenDown => {
            assert(!kw_matches(s, 0, TokenV::PenUp)) by {
                if kw_matches(s, 0, TokenV::PenUp) {
                    assert(s.subrange(0, 5)[3] == keyword_text(TokenV::PenUp)[3]);
                }
            }
            assert(kw_matches(s, 0, TokenV::PenDown)) by {
                assert(s.subrange(0, 7) =~= keyword_text(TokenV::PenDown));
            }
            assert(lex_at(s, 7) =~= Seq::<(TokenV, int, int)>::empty());
        },
        TokenV::Forward => {
            assert(!kw_matches(s, 0, TokenV::PenUp)) by {
                if kw_matches(s, 0, TokenV::PenUp) {
                    assert(s.subrange(0, 5)[0] == keyword_text(TokenV::PenUp)[0]);
                }
            }
            assert(!kw_matches(s, 0, TokenV::PenDown)) by {
                if kw_matches(s, 0, TokenV::PenDown) {
                    assert(s.subrange(0, 7)[0] == keyword_text(TokenV::PenDown)[0]);
                }
            }
            assert(kw_matches(s, 0, TokenV::Forward)) by {
                assert(s.subrange(0, 7) =~= keyword_text(TokenV::Forward));
            }
            assert(lex_at(s, 7) =~= Seq::<(TokenV, int, int)>::empty());
        },
        TokenV::Back => {
            assert(kw_matches(s, 0, TokenV::Back)) by {
                assert(s.subrange(0, 4) =~= keyword_text(TokenV::Back));
            }
            assert(lex_at(s, 4) =~= Seq::<(TokenV, int, int)>::empty());
        },
        TokenV::Left => {
            assert(!kw_matches(s, 0, TokenV::Back)) by {
                if kw_matches(s, 0, TokenV::Back) {
                    assert(s.subrange(0, 4)[0] == keyword_text(TokenV::Back)[0]);
                }
            }
            assert(kw_matches(s, 0, TokenV::Left)) by {
                assert(s.subrange(0, 4) =~= keyword_text(TokenV::Left));
            }
            assert(lex_at(s, 4) =~= Seq::<(TokenV, int, int)>::empty());
        },
        TokenV::Right => {
            assert(!kw_matches(s, 0, TokenV::PenUp)) by {
                if kw_matches(s, 0, TokenV::PenUp) {
                    assert(s.subrange(0, 5)[0] == keyword_text(TokenV::PenUp)[0]);
                }
            }
            assert(!kw_matches(s, 0, TokenV::Back)) by {
                if kw_matches(s, 0, TokenV::Back) {
                    assert(s.subrange(0, 4)[0] == keyword_text(TokenV::Back)[0]);
                }
            }
            assert(!kw_matches(s, 0, TokenV::Left)) by {
                if kw_matches(s, 0, TokenV::Left) {
                    assert(s.subrange(0, 4)[0] == keyword_text(TokenV::Left)[0]);
                }
            }
            assert(kw_matches(s, 0, TokenV::Right)) by {
                assert(s.subrange(0, 5) =~= keyword_text(TokenV::Right));
            }
            assert(lex_at(s, 5) =~= Seq::<(TokenV, int, int)>::empty());
        },
        TokenV::SetPenColor => {
            assert(!kw_matches(s, 0, TokenV::PenUp)) by {
                if kw_matches(s, 0, TokenV::PenUp) {
                    assert(s.subrange(0, 5)[0] == keyword_text(TokenV::PenUp)[0]);
                }
            }
            assert(!kw_matches(s, 0, TokenV::PenDown)) by {
                if kw_matches(s, 0, TokenV::PenDown) {
                    assert(s.subrange(0, 7)[0] == keyword_text(TokenV::PenDown)[0]);
                }
            }
            assert(!kw_matches(s, 0, TokenV::Forward)) by {
                if kw_matches(s, 0, TokenV::Forward) {
                    assert(s.subrange(0, 7)[0] == keyword_text(TokenV::Forward)[0]);
                }
            }
            assert(!kw_matches(s, 0, TokenV::Back)) by {
                if kw_matches(s, 0, TokenV::Back) {
                    assert(s.subrange(0, 4)[0] == keyword_text(TokenV::Back)[0]);
                }
            }
            assert(!kw_matches(s, 0, TokenV::Left)) by {
                if kw_matches(s, 0, TokenV::Left) {
                    assert(s.subrange(0, 4)[0] == keyword_text(TokenV::Left)[0]);
                }
            }
            assert(!kw_matches(s, 0, TokenV::Right)) by {
                if kw_matches(s, 0, TokenV::Right) {
                    assert(s.subrange(0, 5)[0] == keyword_text(TokenV::Right)[0]);
                }
            }
            assert(kw_matches(s, 0, TokenV::SetPenColor)) by {
                assert(s.subrange(0, 11) =~= keyword_text(TokenV::SetPenColor));
            }
            assert(lex_at(s, 11) =~= Seq::<(TokenV, int, int)>::empty());
        },
        TokenV::Turn => {
            assert(!kw_matches(s, 0, TokenV::Back)) by {
                if kw_matches(s, 0, TokenV::Back) {
                    assert(s.subrange(0, 4)[0] == keyword_text(TokenV::Back)[0]);
                }
            }
            assert(!kw_matches(s, 0, TokenV::Left)) by {
                if kw_matches(s, 0, TokenV::Left) {
                    assert(s.subrange(0, 4)[0] == keyword_text(TokenV::Left)[0]);
                }
            }
            assert(kw_matches(s, 0, TokenV::Turn)) by {
                assert(s.subrange(0, 4) =~= keyword_text(TokenV::Turn));
            }
            assert(lex_at(s, 4) =~= Seq::<(TokenV, int, int)>::empty());
        },
        TokenV::SetHeading => {
            assert(!kw_matches(s, 0, TokenV::PenUp)) by {
                if kw_matches(s, 0, TokenV::PenUp) {
                    assert(s.subrange(0, 5)[0] == keyword_text(TokenV::PenUp)[0]);
                }
            }
            assert(!kw_matches(s, 0, TokenV::PenDown)) by {
                if kw_matches(s, 0, TokenV::PenDown) {
                    assert(s.subrange(0, 7)[0] == keyword_text(TokenV::PenDown)[0]);
                }
            }
            assert(!kw_matches(s, 0, TokenV::Forward)) by {
                if kw_matches(s, 0, TokenV::Forward) {
                    assert(s.subrange(0, 7)[0] == keyword_text(TokenV::Forward)[0]);
                }
            }
            assert(!kw_matches(s, 0, TokenV::Back)) by {
                if kw_matches(s, 0, TokenV::Back) {
                    assert(s.subrange(0, 4)[0] == keyword_text(TokenV::Back)[0]);
                }
            }
            assert(!kw_matches(s, 0, TokenV::Left)) by {
                if kw_matches(s, 0, TokenV::Left) {
                    assert(s.subrange(0, 4)[0] == keyword_text(TokenV::Left)[0]);
                }
            }
            assert(!kw_matches(s, 0, TokenV::Right)) by {
                if kw_matches(s, 0, TokenV::Right) {
                    assert(s.subrange(0, 5)[0] == keyword_text(TokenV::Right)[0]);
                }
            }
            assert(!kw_matches(s, 0, TokenV::Turn)) by {
                if kw_matches(s, 0, TokenV::Turn) {
                    assert(s.subrange(0, 4)[0] == keyword_text(TokenV::Turn)[0]);
                }
            }
            assert(kw_matches(s, 0, TokenV::SetHeading)) by {
                assert(s.subrange(0, 10) =~= keyword_text(TokenV::SetHeading));
            }
            assert(lex_at(s, 10) =~= Seq::<(TokenV, int, int)>::empty());
        },
        TokenV::SetX => {
            assert(!kw_matches(s, 0, TokenV::Back)) by {
                if kw_matches(s, 0, TokenV::Back) {
                    assert(s.subrange(0, 4)[0] == keyword_text(TokenV::Back)[0]);
                }
            }
            assert(!kw_matches(s, 0, TokenV::Left)) by {
                if kw_matches(s, 0, TokenV::Left) {
                    assert(s.subrange(0, 4)[0] == keyword_text(TokenV::Left)[0]);
                }
            }
            assert(!kw_matches(s, 0, TokenV::Turn)) by {
                if kw_matches(s, 0, TokenV::Turn) {
                    assert(s.subrange(0, 4)[0] == keyword_text(TokenV::Turn)[0]);
                }
            }
            assert(kw_matches(s, 0, TokenV::SetX)) by {
                assert(s.subrange(0, 4) =~= keyword_text(TokenV::SetX));
            }
            assert(lex_at(s, 4) =~= Seq::<(TokenV, int, int)>::empty());
        },
        TokenV::SetY => {
            assert(!kw_matches(s, 0, TokenV::Back)) by {
                if kw_matches(s, 0, TokenV::Back) {
                    assert(s.subrange(0, 4)[0] == keyword_text(TokenV::Back)[0]);
                }
            }
            assert(!kw_matches(s, 0, TokenV::Left)) by {
                if kw_matches(s, 0, TokenV::Left) {
                    assert(s.subrange(0, 4)[0] == keyword_text(TokenV::Left)[0]);
                }
            }
            assert(!kw_matches(s, 0, TokenV::Turn)) by {
                if kw_matches(s, 0, TokenV::Turn) {
                    assert(s.subrange(0, 4)[0] == keyword_text(TokenV::Turn)[0]);
                }
            }
            assert(!kw_matches(s, 0, TokenV::SetX)) by {
                if kw_matches(s, 0, TokenV::SetX) {
                    assert(s.subrange(0, 4)[3] == keyword_text(TokenV::SetX)[3]);
                }
            }
            assert(kw_matches(s, 0, TokenV::SetY)) by {
                assert(s.subrange(0, 4) =~= keyword_text(TokenV::SetY));
            }
            assert(lex_at(s, 4) =~= Seq::<(TokenV, int, int)>::empty());
        },
        TokenV::Make => {
            assert(!kw_matches(s, 0, TokenV::Back)) by {
                if kw_matches(s, 0, TokenV::Back) {
                    assert(s.subrange(0, 4)[0] == keyword_text(TokenV::Back)[0]);
                }
            }
            assert(!kw_matches(s, 0, TokenV::Left)) by {
                if kw_matches(s, 0, TokenV::Left) {
                    assert(s.subrange(0, 4)[0] == keyword_text(TokenV::Left)[0]);
                }
            }
            assert(!kw_matches(s, 0, TokenV::Turn)) by {
                if kw_matches(s, 0, TokenV::Turn) {
                    assert(s.subrange(0, 4)[0] == keyword_text(TokenV::Turn)[0]);
                }
            }
            assert(!kw_matches(s, 0, TokenV::SetX)) by {
                if kw_matches(s, 0, TokenV::SetX) {
                    assert(s.subrange(0, 4)[0] == keyword_text(TokenV::SetX)[0]);
                }
            }
            assert(!kw_matches(s, 0, TokenV::SetY)) by {
                if kw_matches(s, 0, TokenV::SetY) {
                    assert(s.subrange(0, 4)[0] == keyword_text(TokenV::SetY)[0]);
                }
            }
            assert(kw_matches(s, 0, TokenV::Make)) by {
                assert(s.subrange(0, 4) =~= keyword_text(TokenV::Make));
            }
            assert(lex_at(s, 4) =~= Seq::<(TokenV, int, int)>::empty());
        },
        TokenV::AddAssign => {
            assert(!kw_matches(s, 0, TokenV::PenUp)) by {
                if kw_matches(s, 0, TokenV::PenUp) {
                    assert(s.subrange(0, 5)[0] == keyword_text(TokenV::PenUp)[0]);
                }
            }
            assert(!kw_matches(s, 0, TokenV::PenDown)) by {
                if kw_matches(s, 0, TokenV::PenDown) {
                    assert(s.subrange(0, 7)[0] == keyword_text(TokenV::PenDown)[0]);
                }
            }
            assert(!kw_matches(s, 0, TokenV::Forward)) by {
                if kw_matches(s, 0, TokenV::Forward) {
                    assert(s.subrange(0, 7)[0] == keyword_text(TokenV::Forward)[0]);
                }
            }
            assert(!kw_matches(s, 0, TokenV::Back)) by {
                if kw_matches(s, 0, TokenV::Back) {
                    assert(s.subrange(0, 4)[0] == keyword_text(TokenV::Back)[0]);
                }
            }
            assert(!kw_matches(s, 0, TokenV::Left)) by {
                if kw_matches(s, 0, TokenV::Left) {
                    assert(s.subrange(0, 4)[0] == keyword_text(TokenV::Left)[0]);
                }
            }
            assert(!kw_matches(s, 0, TokenV::Right)) by {
                if kw_matches(s, 0, TokenV::Right) {
                    assert(s.subrange(0, 5)[0] == keyword_text(TokenV::Right)[0]);
                }
            }
            assert(!kw_matches(s, 0, TokenV::Turn)) by {
                if kw_matches(s, 0, TokenV::Turn) {
                    assert(s.subrange(0, 4)[0] == keyword_text(TokenV::Turn)[0]);
                }
            }
            assert(!kw_matches(s, 0, TokenV::SetX)) by {
                if kw_matches(s, 0, TokenV::SetX) {
                    assert(s.subrange(0, 4)[0] == keyword_text(TokenV::SetX)[0]);
                }
            }
            assert(!kw_matches(s, 0, TokenV::SetY)) by {
                if kw_matches(s, 0, TokenV::SetY) {
                    assert(s.subrange(0, 4)[0] == keyword_text(TokenV::SetY)[0]);
                }
            }
            assert(!kw_matches(s, 0, TokenV::Make)) by {
                if kw_matches(s, 0, TokenV::Make) {
                    assert(s.subrange(0, 4)[0] == keyword_text(TokenV::Make)[0]);
                }
            }
            assert(kw_matches(s, 0, TokenV::AddAssign)) by {
                assert(s.subrange(0, 9) =~= keyword_text(TokenV::AddAssign));
            }
            assert(lex_at(s, 9) =~= Seq::<(TokenV, int, int)>::empty());
        },
        TokenV::XCOR => {
            assert(!kw_matches(s, 0, TokenV::Back)) by {
                if kw_matches(s, 0, TokenV::Back) {
                    assert(s.subrange(0, 4)[0] == keyword_text(TokenV::Back)[0]);
                }
            }
            assert(!kw_matches(s, 0, TokenV::Left)) by {
                if kw_matches(s, 0, TokenV::Left) {
                    assert(s.subrange(0, 4)[0] == keyword_text(TokenV::Left)[0]);
                }
            }
            assert(!kw_matches(s, 0, TokenV::Turn)) by {
                if kw_matches(s, 0, TokenV::Turn) {
                    assert(s.subrange(0, 4)[0] == keyword_text(TokenV::Turn)[0]);
                }
            }
            assert(!kw_matches(s, 0, TokenV::SetX)) by {
                if kw_matches(s, 0, TokenV::SetX) {
                    assert(s.subrange(0, 4)[0] == keyword_text(TokenV::SetX)[0]);
                }
            }
            assert(!kw_matches(s, 0, TokenV::SetY)) by {
                if kw_matches(s, 0, TokenV::SetY) {
                    assert(s.subrange(0, 4)[0] == keyword_text(TokenV::SetY)[0]);
                }
            }
            assert(!kw_matches(s, 0, TokenV::Make)) by {
                if kw_matches(s, 0, TokenV::Make) {
                    assert(s.subrange(0, 4)[0] == keyword_text(TokenV::Make)[0]);
                }
            }
            assert(kw_matches(s, 0, TokenV::XCOR)) by {
                assert(s.subrange(0, 4) =~= keyword_text(TokenV::XCOR));
            }
            assert(lex_at(s, 4) =~= Seq::<(TokenV, int, int)>::empty());
        },
        TokenV::YCOR => {
            assert(!kw_matches(s, 0, TokenV::Back)) by {
                if kw_matches(s, 0, TokenV::Back) {
                    assert(s.subrange(0, 4)[0] == keyword_text(TokenV::Back)[0]);
                }
            }
            assert(!kw_matches(s, 0, TokenV::Left)) by {
                if kw_matches(s, 0, TokenV::Left) {
                    assert(s.subrange(0, 4)[0] == keyword_text(TokenV::Left)[0]);
                }
            }
            assert(!kw_matches(s, 0, TokenV::Turn)) by {
                if kw_matches(s, 0, TokenV::Turn) {
                    assert(s.subrange(0, 4)[0] == keyword_text(TokenV::Turn)[0]);
                }
            }
            assert(!kw_matches(s, 0, TokenV::SetX)) by {
                if kw_matches(s, 0, TokenV::SetX) {
                    assert(s.subrange(0, 4)[0] == keyword_text(TokenV::SetX)[0]);
                }
            }
            assert(!kw_matches(s, 0, TokenV::SetY)) by {
                if kw_matches(s, 0, TokenV::SetY) {
                    assert(s.subrange(0, 4)[0] == keyword_text(TokenV::SetY)[0]);
                }
            }
            assert(!kw_matches(s, 0, TokenV::Make)) by {
                if kw_matches(s, 0, TokenV::Make) {
                    assert(s.subrange(0, 4)[0] == keyword_text(TokenV::Make)[0]);
                }
            }
            assert(!kw_matches(s, 0, TokenV::XCOR)) by {
                if kw_matches(s, 0, TokenV::XCOR) {
                    assert(s.subrange(0, 4)[0] == keyword_text(TokenV::XCOR)[0]);
                }
            }
            assert(kw_matches(s, 0, TokenV::YCOR)) by {
                assert(s.subrange(0, 4) =~= keyword_text(TokenV::YCOR));
            }
            assert(lex_at(s, 4) =~= Seq::<(TokenV, int, int)>::empty());
        },
        TokenV::HEADING => {
            assert(!kw_matches(s, 0, TokenV::PenUp)) by {
                if kw_matches(s, 0, TokenV::PenUp) {
                    assert(s.subrange(0, 5)[0] == keyword_text(TokenV::PenUp)[0]);
                }
            }
            assert(!kw_matches(s, 0, TokenV::PenDown)) by {
                if kw_matches(s, 0, TokenV::PenDown) {
                    assert(s.subrange(0, 7)[0] == keyword_text(TokenV::PenDown)[0]);
                }
            }
            assert(!kw_matches(s, 0, TokenV::Forward)) by {
                if kw_matches(s, 0, TokenV::Forward) {
                    assert(s.subrange(0, 7)[0] == keyword_text(TokenV::Forward)[0]);
                }
            }
            assert(!kw_matches(s, 0, TokenV::Back)) by {
                if kw_matches(s, 0, TokenV::Back) {
                    assert(s.subrange(0, 4)[0] == keyword_text(TokenV::Back)[0]);
                }
            }
            assert(!kw_matches(s, 0, TokenV::Left)) by {
                if kw_matches(s, 0, TokenV::Left) {
                    assert(s.subrange(0, 4)[0] == keyword_text(TokenV::Left)[0]);
                }
            }
            assert(!kw_matches(s, 0, TokenV::Right)) by {
                if kw_matches(s, 0, TokenV::Right) {
                    assert(s.subrange(0, 5)[0] == keyword_text(TokenV::Right)[0]);
                }
            }
            assert(!kw_matches(s, 0, TokenV::Turn)) by {
                if kw_matches(s, 0, TokenV::Turn) {
                    assert(s.subrange(0, 4)[0] == keyword_text(TokenV::Turn)[0]);
                }
            }
            assert(!kw_matches(s, 0, TokenV::SetX)) by {
                if kw_matches(s, 0, TokenV::SetX) {
                    assert(s.subrange(0, 4)[0] == keyword_text(TokenV::SetX)[0]);
                }
            }
            assert(!kw_matches(s, 0, TokenV::SetY)) by {
                if kw_matches(s, 0, TokenV::SetY) {
                    assert(s.subrange(0, 4)[0] == keyword_text(TokenV::SetY)[0]);
                }
            }
            assert(!kw_matches(s, 0, TokenV::Make)) by {
                if kw_matches(s, 0, TokenV::Make) {
                    assert(s.subrange(0, 4)[0] == keyword_text(TokenV::Make)[0]);
                }
            }
            assert(!kw_matches(s, 0, TokenV::XCOR)) by {
                if kw_matches(s, 0, TokenV::XCOR) {
                    assert(s.subrange(0, 4)[0] == keyword_text(TokenV::XCOR)[0]);
                }
            }
            assert(!kw_matches(s, 0, TokenV::YCOR)) by {
                if kw_matches(s, 0, TokenV::YCOR) {
                    assert(s.subrange(0, 4)[0] == keyword_text(TokenV::YCOR)[0]);
                }
            }
            assert(kw_matches(s, 0, TokenV::HEADING)) by {
                assert(s.subrange(0, 7) =~= keyword_text(TokenV::HEADING));
            }
            assert(lex_at(s, 7) =~= Seq::<(TokenV, int, int)>::empty());
        },
        TokenV::COLOR => {
            assert(!kw_matches(s, 0, TokenV::PenUp)) by {
                if kw_matches(s, 0, TokenV::PenUp) {
                    assert(s.subrange(0, 5)[0] == keyword_text(TokenV::PenUp)[0]);
                }
            }
            assert(!kw_matches(s, 0, TokenV::Back)) by {
                if kw_matches(s, 0, TokenV::Back) {
                    assert(s.subrange(0, 4)[0] == keyword_text(TokenV::Back)[0]);
                }
            }
            assert(!kw_matches(s, 0, TokenV::Left)) by {
                if kw_matches(s, 0, TokenV::Left) {
                    assert(s.subrange(0, 4)[0] == keyword_text(TokenV::Left)[0]);
                }
            }
            assert(!kw_matches(s, 0, TokenV::Right)) by {
                if kw_matches(s, 0, TokenV::Right) {
                    assert(s.subrange(0, 5)[0] == keyword_text(TokenV::Right)[0]);
                }
            }
            assert(!kw_matches(s, 0, TokenV::Turn)) by {
                if kw_matches(s, 0, TokenV::Turn) {
                    assert(s.subrange(0, 4)[0] == keyword_text(TokenV::Turn)[0]);
                }
            }
            assert(!kw_matches(s, 0, TokenV::SetX)) by {
                if kw_matches(s, 0, TokenV::SetX) {
                    assert(s.subrange(0, 4)[0] == keyword_text(TokenV::SetX)[0]);
                }
            }
            assert(!kw_matches(s, 0, TokenV::SetY)) by {
                if kw_matches(s, 0, TokenV::SetY) {
                    assert(s.subrange(0, 4)[0] == keyword_text(TokenV::SetY)[0]);
                }
            }
            assert(!kw_matches(s, 0, TokenV::Make)) by {
                if kw_matches(s, 0, TokenV::Make) {
                    assert(s.subrange(0, 4)[0] == keyword_text(TokenV::Make)[0]);
                }
            }
            assert(!kw_matches(s, 0, TokenV::XCOR)) by {
                if kw_matches(s, 0, TokenV::XCOR) {
                    assert(s.subrange(0, 4)[0] == keyword_text(TokenV::XCOR)[0]);
                }
            }
            assert(!kw_matches(s, 0, TokenV::YCOR)) by {
                if kw_matches(s, 0, TokenV::YCOR) {
                    assert(s.subrange(0, 4)[0] == keyword_text(TokenV::YCOR)[0]);
                }
            }
            assert(kw_matches(s, 0, TokenV::COLOR)) by {
                assert(s.subrange(0, 5) =~= keyword_text(TokenV::COLOR));
            }
            assert(lex_at(s, 5) =~= Seq::<(TokenV, int, int)>::empty());
        },
        TokenV::If => {
            assert(kw_matches(s, 0, TokenV::If)) by {
                assert(s.subrange(0, 2) =~= keyword_text(TokenV::If));
            }
            assert(lex_at(s, 2) =~= Seq::<(TokenV, int, int)>::empty());
        },
        TokenV::While => {
            assert(!kw_matches(s, 0, TokenV::PenUp)) by {
                if kw_matches(s, 0, TokenV::PenUp) {
                    assert(s.subrange(0, 5)[0] == keyword_text(TokenV::PenUp)[0]);
                }
            }
            assert(!kw_matches(s, 0, TokenV::Back)) by {
                if kw_matches(s, 0, TokenV::Back) {
                    assert(s.subrange(0, 4)[0] == keyword_text(TokenV::Back)[0]);
                }
            }
            assert(!kw_matches(s, 0, TokenV::Left)) by {
                if kw_matches(s, 0, TokenV::Left) {
                    assert(s.subrange(0, 4)[0] == keyword_text(TokenV::Left)[0]);
                }
            }
            assert(!kw_matches(s, 0, TokenV::Right)) by {
                if kw_matches(s, 0, TokenV::Right) {
                    assert(s.subrange(0, 5)[0] == keyword_text(TokenV::Right)[0]);
                }
            }
            assert(!kw_matches(s, 0, TokenV::Turn)) by {
                if kw_matches(s, 0, TokenV::Turn) {
                    assert(s.subrange(0, 4)[0] == keyword_text(TokenV::Turn)[0]);
                }
            }
            assert(!kw_matches(s, 0, TokenV::SetX)) by {
                if kw_matches(s, 0, TokenV::SetX) {
                    assert(s.subrange(0, 4)[0] == keyword_text(TokenV::SetX)[0]);
                }
            }
            assert(!kw_matches(s, 0, TokenV::SetY)) by {
                if kw_matches(s, 0, TokenV::SetY) {
                    assert(s.subrange(0, 4)[0] == keyword_text(TokenV::SetY)[0]);
                }
            }
            assert(!kw_matches(s, 0, TokenV::Make)) by {
                if kw_matches(s, 0, TokenV::Make) {
                    assert(s.subrange(0, 4)[0] == keyword_text(TokenV::Make)[0]);
                }
            }
            assert(!kw_matches(s, 0, TokenV::XCOR)) by {
                if kw_matches(s, 0, TokenV::XCOR) {
                    assert(s.subrange(0, 4)[0] == keyword_text(TokenV::XCOR)[0]);
                }
            }
            assert(!kw_matches(s, 0, TokenV::YCOR)) by {
                if kw_matches(s, 0, TokenV::YCOR) {
                    assert(s.subrange(0, 4)[0] == keyword_text(TokenV::YCOR)[0]);
                }
            }
            assert(!kw_matches(s, 0, TokenV::COLOR)) by {
                if kw_matches(s, 0, TokenV::COLOR) {
                    assert(s.subrange(0, 5)[0] == keyword_text(TokenV::COLOR)[0]);
                }
            }
            assert(!kw_matches(s, 0, TokenV::If)) by {
                if kw_matches(s, 0, TokenV::If) {
                    assert(s.subrange(0, 2)[0] == keyword_text(TokenV::If)[0]);
                }
            }
            assert(kw_matches(s, 0, TokenV::While)) by {
                assert(s.subrange(0, 5) =~= keyword_text(TokenV::While));
            }
            assert(lex_at(s, 5) =~= Seq::<(TokenV, int, int)>::empty());
        },
        TokenV::Equal => {
            assert(!kw_matches(s, 0, TokenV::If)) by {
                if kw_matches(s, 0, TokenV::If) {
                    assert(s.subrange(0, 2)[0] == keyword_text(TokenV::If)[0]);
                }
            }
            assert(kw_matches(s, 0, TokenV::Equal)) by {
                assert(s.subrange(0, 2) =~= keyword_text(TokenV::Equal));
            }
            assert(lex_at(s, 2) =~= Seq::<(TokenV, int, int)>::empty());
        },
        TokenV::NotEqual => {
            assert(!kw_matches(s, 0, TokenV::If)) by {
                if kw_matches(s, 0, TokenV::If) {
                    assert(s.subrange(0, 2)[0] == keyword_text(TokenV::If)[0]);
                }
            }
            assert(!kw_matches(s, 0, TokenV::Equal)) by {
                if kw_matches(s, 0, TokenV::Equal) {
                    assert(s.subrange(0, 2)[0] == keyword_text(TokenV::Equal)[0]);
                }
            }
            assert(kw_matches(s, 0, TokenV::NotEqual)) by {
                assert(s.subrange(0, 2) =~= keyword_text(TokenV::NotEqual));
            }
            assert(lex_at(s, 2) =~= Seq::<(TokenV, int, int)>::empty());
        },
        TokenV::LessThan => {
            assert(!kw_matches(s, 0, TokenV::If)) by {
                if kw_matches(s, 0, TokenV::If) {
                    assert(s.subrange(0, 2)[0] == keyword_text(TokenV::If)[0]);
                }
            }
            assert(!kw_matches(s, 0, TokenV::Equal)) by {
                if kw_matches(s, 0, TokenV::Equal) {
                    assert(s.subrange(0, 2)[0] == keyword_text(TokenV::Equal)[0]);
                }
            }
            assert(!kw_matches(s, 0, TokenV::NotEqual)) by {
                if kw_matches(s, 0, TokenV::NotEqual) {
                    assert(s.subrange(0, 2)[0] == keyword_text(TokenV::NotEqual)[0]);
                }
            }
            assert(kw_matches(s, 0, TokenV::LessThan)) by {
                assert(s.subrange(0, 2) =~= keyword_text(TokenV::LessThan));
            }
            assert(lex_at(s, 2) =~= Seq::<(TokenV, int, int)>::empty());
        },
        TokenV::GreaterThan => {
            assert(!kw_matches(s, 0, TokenV::If)) by {
                if kw_matches(s, 0, TokenV::If) {
                    assert(s.subrange(0, 2)[0] == keyword_text(TokenV::If)[0]);
                }
            }
            assert(!kw_matches(s, 0, TokenV::Equal)) by {
                if kw_matches(s, 0, TokenV::Equal) {
                    assert(s.subrange(0, 2)[0] == keyword_text(TokenV::Equal)[0]);
                }
            }
            assert(!kw_matches(s, 0, TokenV::NotEqual)) by {
                if kw_matches(s, 0, TokenV::NotEqual) {
                    assert(s.subrange(0, 2)[0] == keyword_text(TokenV::NotEqual)[0]);
                }
            }
            assert(!kw_matches(s, 0, TokenV::LessThan)) by {
                if kw_matches(s, 0, TokenV::LessThan) {
                    assert(s.subrange(0, 2)[0] == keyword_text(TokenV::LessThan)[0]);
                }
            }
            assert(kw_matches(s, 0, TokenV::GreaterThan)) by {
                assert(s.subrange(0, 2) =~= keyword_text(TokenV::GreaterThan));
            }
            assert(lex_at(s, 2) =~= Seq::<(TokenV, int, int)>::empty());
        },
        TokenV::And => {
            assert(!kw_matches(s, 0, TokenV::If)) by {
                if kw_matches(s, 0, TokenV::If) {
                    assert(s.subrange(0, 2)[0] == keyword_text(TokenV::If)[0]);
                }
            }
            assert(!kw_matches(s, 0, TokenV::Equal)) by {
                if kw_matches(s, 0, TokenV::Equal) {
                    assert(s.subrange(0, 2)[0] == keyword_text(TokenV::Equal)[0]);
                }
            }
            assert(!kw_matches(s, 0, TokenV::NotEqual)) by {
                if kw_matches(s, 0, TokenV::NotEqual) {
                    assert(s.subrange(0, 2)[0] == keyword_text(TokenV::NotEqual)[0]);
                }
            }
            assert(!kw_matches(s, 0, TokenV::LessThan)) by {
                if kw_matches(s, 0, TokenV::LessThan) {
                    assert(s.subrange(0, 2)[0] == keyword_text(TokenV::LessThan)[0]);
                }
            }
            assert(!kw_matches(s, 0, TokenV::GreaterThan)) by {
                if kw_matches(s, 0, TokenV::GreaterThan) {
                    assert(s.subrange(0, 2)[0] == keyword_text(TokenV::GreaterThan)[0]);
                }
            }
            assert(kw_matches(s, 0, TokenV::And)) by {
                assert(s.subrange(0, 3) =~= keyword_text(TokenV::And));
            }
            assert(lex_at(s, 3) =~= Seq::<(TokenV, int, int)>::empty());
        },
        TokenV::Or => {
            assert(!kw_matches(s, 0, TokenV::If)) by {
                if kw_matches(s, 0, TokenV::If) {
                    assert(s.subrange(0, 2)[0] == keyword_text(TokenV::If)[0]);
                }
            }
            assert(!kw_matches(s, 0, TokenV::Equal)) by {
                if kw_matches(s, 0, TokenV::Equal) {
                    assert(s.subrange(0, 2)[0] == keyword_text(TokenV::Equal)[0]);
                }
            }
            assert(!kw_matches(s, 0, TokenV::NotEqual)) by {
                if kw_matches(s, 0, TokenV::NotEqual) {
                    assert(s.subrange(0, 2)[0] == keyword_text(TokenV::NotEqual)[0]);
                }
            }
            assert(!kw_matches(s, 0, TokenV::LessThan)) by {
                if kw_matches(s, 0, TokenV::LessThan) {
                    assert(s.subrange(0, 2)[0] == keyword_text(TokenV::LessThan)[0]);
                }
            }
            assert(!kw_matches(s, 0, TokenV::GreaterThan)) by {
                if kw_matches(s, 0, TokenV::GreaterThan) {
                    assert(s.subrange(0, 2)[0] == keyword_text(TokenV::GreaterThan)[0]);
                }
            }
            assert(kw_matches(s, 0, TokenV::Or)) by {
                assert(s.subrange(0, 2) =~= keyword_text(TokenV::Or));
            }
            assert(lex_at(s, 2) =~= Seq::<(TokenV, int, int)>::empty());
        },
        TokenV::LParen => {
            assert(lex_at(s, 1) =~= Seq::<(TokenV, int, int)>::empty());
        },
        TokenV::RParen => {
            assert(lex_at(s, 1) =~= Seq::<(TokenV, int, int)>::empty());
        },
        TokenV::Add => {
            assert(lex_at(s, 1) =~= Seq::<(TokenV, int, int)>::empty());
        },
        TokenV::Sub => {
            assert(lex_at(s, 1) =~= Seq::<(TokenV, int, int)>::empty());
        },
        TokenV::Mul => {
            assert(lex_at(s, 1) =~= Seq::<(TokenV, int, int)>::empty());
        },
        TokenV::Div => {
            assert(lex_at(s, 1) =~= Seq::<(TokenV, int, int)>::empty());
        },
        TokenV::Value(payload) => {
            assert(!kw_matches(s, 0, TokenV::PenUp)) by {
                if kw_matches(s, 0, TokenV::PenUp) {
                    assert(s.subrange(0, 5)[0] == keyword_text(TokenV::PenUp)[0]);
                }
            }
            assert(!kw_matches(s, 0, TokenV::PenDown)) by {
                if kw_matches(s, 0, TokenV::PenDown) {
                    assert(s.subrange(0, 7)[0] == keyword_text(TokenV::PenDown)[0]);
                }
            }
            assert(!kw_matches(s, 0, TokenV::Forward)) by {
                if kw_matches(s, 0, TokenV::Forward) {
                    assert(s.subrange(0, 7)[0] == keyword_text(TokenV::Forward)[0]);
                }
            }
            assert(!kw_matches(s, 0, TokenV::Back)) by {
                if kw_matches(s, 0, TokenV::Back) {
                    assert(s.subrange(0, 4)[0] == keyword_text(TokenV::Back)[0]);
                }
            }
            assert(!kw_matches(s, 0, TokenV::Left)) by {
                if kw_matches(s, 0, TokenV::Left) {
                    assert(s.subrange(0, 4)[0] == keyword_text(TokenV::Left)[0]);
                }
            }
            assert(!kw_matches(s, 0, TokenV::Right)) by {
                if kw_matches(s, 0, TokenV::Right) {
                    assert(s.subrange(0, 5)[0] == keyword_text(TokenV::Right)[0]);
                }
            }
            assert(!kw_matches(s, 0, TokenV::SetPenColor)) by {
                if kw_matches(s, 0, TokenV::SetPenColor) {
                    assert(s.subrange(0, 11)[0] == keyword_text(TokenV::SetPenColor)[0]);
                }
            }
            assert(!kw_matches(s, 0, TokenV::Turn)) by {
                if kw_matches(s, 0, TokenV::Turn) {
                    assert(s.subrange(0, 4)[0] == keyword_text(TokenV::Turn)[0]);
                }
            }
            assert(!kw_matches(s, 0, TokenV::SetHeading)) by {
                if kw_matches(s, 0, TokenV::SetHeading) {
                    assert(s.subrange(0, 10)[0] == keyword_text(TokenV::SetHeading)[0]);
                }
            }
            assert(!kw_matches(s, 0, TokenV::SetX)) by {
                if kw_matches(s, 0, TokenV::SetX) {
                    assert(s.subrange(0, 4)[0] == keyword_text(TokenV::SetX)[0]);
                }
            }
            assert(!kw_matches(s, 0, TokenV::SetY)) by {
                if kw_matches(s, 0, TokenV::SetY) {
                    assert(s.subrange(0, 4)[0] == keyword_text(TokenV::SetY)[0]);
                }
            }
            assert(!kw_matches(s, 0, TokenV::Make)) by {
                if kw_matches(s, 0, TokenV::Make) {
                    assert(s.subrange(0, 4)[0] == keyword_text(TokenV::Make)[0]);
                }
            }
            assert(!kw_matches(s, 0, TokenV::AddAssign)) by {
                if kw_matches(s, 0, TokenV::AddAssign) {
                    assert(s.subrange(0, 9)[0] == keyword_text(TokenV::AddAssign)[0]);
                }
            }
            assert(!kw_matches(s, 0, TokenV::XCOR)) by {
                if kw_matches(s, 0, TokenV::XCOR) {
                    assert(s.subrange(0, 4)[0] == keyword_text(TokenV::XCOR)[0]);
                }
            }
            assert(!kw_matches(s, 0, TokenV::YCOR)) by {
                if kw_matches(s, 0, TokenV::YCOR) {
                    assert(s.subrange(0, 4)[0] == keyword_text(TokenV::YCOR)[0]);
                }
            }
            assert(!kw_matches(s, 0, TokenV::HEADING)) by {
                if kw_matches(s, 0, TokenV::HEADING) {
                    assert(s.subrange(0, 7)[0] == keyword_text(TokenV::HEADING)[0]);
                }
            }
            assert(!kw_matches(s, 0, TokenV::COLOR)) by {
                if kw_matches(s, 0, TokenV::COLOR) {
                    assert(s.subrange(0, 5)[0] == keyword_text(TokenV::COLOR)[0]);
                }
            }
            assert(!kw_matches(s, 0, TokenV::If)) by {
                if kw_matches(s, 0, TokenV::If) {
                    assert(s.subrange(0, 2)[0] == keyword_text(TokenV::If)[0]);
                }
            }
            assert(!kw_matches(s, 0, TokenV::While)) by {
                if kw_matches(s, 0, TokenV::While) {
                    assert(s.subrange(0, 5)[0] == keyword_text(TokenV::While)[0]);
                }
            }
            assert(!kw_matches(s, 0, TokenV::Equal)) by {
                if kw_matches(s, 0, TokenV::Equal) {
                    assert(s.subrange(0, 2)[0] == keyword_text(TokenV::Equal)[0]);
                }
            }
            assert(!kw_matches(s, 0, TokenV::NotEqual)) by {
                if kw_matches(s, 0, TokenV::NotEqual) {
                    assert(s.subrange(0, 2)[0] == keyword_text(TokenV::NotEqual)[0]);
                }
            }
            assert(!kw_matches(s, 0, TokenV::LessThan)) by {
                if kw_matches(s, 0, TokenV::LessThan) {
                    assert(s.subrange(0, 2)[0] == keyword_text(TokenV::LessThan)[0]);
                }
            }
            assert(!kw_matches(s, 0, TokenV::GreaterThan)) by {
                if kw_matches(s, 0, TokenV::GreaterThan) {
                    assert(s.subrange(0, 2)[0] == keyword_text(TokenV::GreaterThan)[0]);
                }
            }
            assert(!kw_matches(s, 0, TokenV::And)) by {
                if kw_matches(s, 0, TokenV::And) {
                    assert(s.subrange(0, 3)[0] == keyword_text(TokenV::And)[0]);
                }
            }
            assert(!kw_matches(s, 0, TokenV::Or)) by {
                if kw_matches(s, 0, TokenV::Or) {
                    assert(s.subrange(0, 2)[0] == keyword_text(TokenV::Or)[0]);
                }
            }
            assert(s.subrange(1, s.len() as int) =~= payload);
            lemma_atom_end_clean(s, 1);
            assert(lex_at(s, s.len() as int) =~= Seq::<(TokenV, int, int)>::empty());
        },
        TokenV::Variable(payload) => {
            assert(!kw_matches(s, 0, TokenV::PenUp)) by {
                if kw_matches(s, 0, TokenV::PenUp) {
                    assert(s.subrange(0, 5)[0] == keyword_text(TokenV::PenUp)[0]);
                }
            }
            assert(!kw_matches(s, 0, TokenV::PenDown)) by {
                if kw_matches(s, 0, TokenV::PenDown) {
                    assert(s.subrange(0, 7)[0] == keyword_text(TokenV::PenDown)[0]);
                }
            }
            assert(!kw_matches(s, 0, TokenV::Forward)) by {
                if kw_matches(s, 0, TokenV::Forward) {
                    assert(s.subrange(0, 7)[0] == keyword_text(TokenV::Forward)[0]);
                }
            }
            assert(!kw_matches(s, 0, TokenV::Back)) by {
                if kw_matches(s, 0, TokenV::Back) {
                    assert(s.subrange(0, 4)[0] == keyword_text(TokenV::Back)[0]);
                }
            }
            assert(!kw_matches(s, 0, TokenV::Left)) by {
                if kw_matches(s, 0, TokenV::Left) {
                    assert(s.subrange(0, 4)[0] == keyword_text(TokenV::Left)[0]);
                }
            }
            assert(!kw_matches(s, 0, TokenV::Right)) by {
                if kw_matches(s, 0, TokenV::Right) {
                    assert(s.subrange(0, 5)[0] == keyword_text(TokenV::Right)[0]);
                }
            }
            assert(!kw_matches(s, 0, TokenV::SetPenColor)) by {
                if kw_matches(s, 0, TokenV::SetPenColor) {
                    assert(s.subrange(0, 11)[0] == keyword_text(TokenV::SetPenColor)[0]);
                }
            }
            assert(!kw_matches(s, 0, TokenV::Turn)) by {
                if kw_matches(s, 0, TokenV::Turn) {
                    assert(s.subrange(0, 4)[0] == keyword_text(TokenV::Turn)[0]);
                }
            }
            assert(!kw_matches(s, 0, TokenV::SetHeading)) by {
                if kw_matches(s, 0, TokenV::SetHeading) {
                    assert(s.subrange(0, 10)[0] == keyword_text(TokenV::SetHeading)[0]);
                }
            }
            assert(!kw_matches(s, 0, TokenV::SetX)) by {
                if kw_matches(s, 0, TokenV::SetX) {
                    assert(s.subrange(0, 4)[0] == keyword_text(TokenV::SetX)[0]);
                }
            }
            assert(!kw_matches(s, 0, TokenV::SetY)) by {
                if kw_matches(s, 0, TokenV::SetY) {
                    assert(s.subrange(0, 4)[0] == keyword_text(TokenV::SetY)[0]);
                }
            }
            assert(!kw_matches(s, 0, TokenV::Make)) by {
                if kw_matches(s, 0, TokenV::Make) {
                    assert(s.subrange(0, 4)[0] == keyword_text(TokenV::Make)[0]);
                }
            }
            assert(!kw_matches(s, 0, TokenV::AddAssign)) by {
                if kw_matches(s, 0, TokenV::AddAssign) {
                    assert(s.subrange(0, 9)[0] == keyword_text(TokenV::AddAssign)[0]);
                }
            }
            assert(!kw_matches(s, 0, TokenV::XCOR)) by {
                if kw_matches(s, 0, TokenV::XCOR) {
                    assert(s.subrange(0, 4)[0] == keyword_text(TokenV::XCOR)[0]);
                }
            }
            assert(!kw_matches(s, 0, TokenV::YCOR)) by {
                if kw_matches(s, 0, TokenV::YCOR) {
                    assert(s.subrange(0, 4)[0] == keyword_text(TokenV::YCOR)[0]);
                }
            }
            assert(!kw_matches(s, 0, TokenV::HEADING)) by {
                if kw_matches(s, 0, TokenV::HEADING) {
                    assert(s.subrange(0, 7)[0] == keyword_text(TokenV::HEADING)[0]);
                }
            }
            assert(!kw_matches(s, 0, TokenV::COLOR)) by {
                if kw_matches(s, 0, TokenV::COLOR) {
                    assert(s.subrange(0, 5)[0] == keyword_text(TokenV::COLOR)[0]);
                }
            }
            assert(!kw_matches(s, 0, TokenV::If)) by {
                if kw_matches(s, 0, TokenV::If) {
                    assert(s.subrange(0, 2)[0] == keyword_text(TokenV::If)[0]);
                }
            }
            assert(!kw_matches(s, 0, TokenV::While)) by {
                if kw_matches(s, 0, TokenV::While) {
                    assert(s.subrange(0, 5)[0] == keyword_text(TokenV::While)[0]);
                }
            }
            assert(!kw_matches(s, 0, TokenV::Equal)) by {
                if kw_matches(s, 0, TokenV::Equal) {
                    assert(s.subrange(0, 2)[0] == keyword_text(TokenV::Equal)[0]);
                }
            }
            assert(!kw_matches(s, 0, TokenV::NotEqual)) by {
                if kw_matches(s, 0, TokenV::NotEqual) {
                    assert(s.subrange(0, 2)[0] == keyword_text(TokenV::NotEqual)[0]);
                }
            }
            assert(!kw_matches(s, 0, TokenV::LessThan)) by {
                if kw_matches(s, 0, TokenV::LessThan) {
                    assert(s.subrange(0, 2)[0] == keyword_text(TokenV::LessThan)[0]);
                }
            }
            assert(!kw_matches(s, 0, TokenV::GreaterThan)) by {
                if kw_matches(s, 0, TokenV::GreaterThan) {
                    assert(s.subrange(0, 2)[0] == keyword_text(TokenV::GreaterThan)[0]);
                }
            }
            assert(!kw_matches(s, 0, TokenV::And)) by {
                if kw_matches(s, 0, TokenV::And) {
                    assert(s.subrange(0, 3)[0] == keyword_text(TokenV::And)[0]);
                }
            }
            assert(!kw_matches(s, 0, TokenV::Or)) by {
                if kw_matches(s, 0, TokenV::Or) {
                    assert(s.subrange(0, 2)[0] == keyword_text(TokenV::Or)[0]);
                }
            }
            assert(s.subrange(1, s.len() as int) =~= payload);
            lemma_atom_end_clean(s, 1);
            assert(lex_at(s, s.len() as int) =~= Seq::<(TokenV, int, int)>::empty());
        },
        TokenV::Error => {},
    }
}

} // verus!
