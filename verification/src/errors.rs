//! Diagnostic values returned by the lexer and the parser, and their
//! human-readable rendering.

use vstd::prelude::*;

use crate::token::{Token, TokenView};

verus! {

/// The character for a single decimal digit value.
pub open spec fn dec_digit_char(d: int) -> char {
    if d == 0 {
        '0'
    } else if d == 1 {
        '1'
    } else if d == 2 {
        '2'
    } else if d == 3 {
        '3'
    } else if d == 4 {
        '4'
    } else if d == 5 {
        '5'
    } else if d == 6 {
        '6'
    } else if d == 7 {
        '7'
    } else if d == 8 {
        '8'
    } else {
        '9'
    }
}

/// The decimal rendering of a natural number, most significant digit
/// first, with no leading zeros (except for zero itself).
pub open spec fn spec_dec_str(n: nat) -> Seq<char>
    decreases n,
{
    if n < 10 {
        seq![dec_digit_char(n as int)]
    } else {
        spec_dec_str(n / 10) + seq![dec_digit_char((n % 10) as int)]
    }
}

/// The one-character string for a single decimal digit value.
fn digit_str(d: usize) -> (r: &'static str)
    requires
        d < 10,
    ensures
        r@ == seq![dec_digit_char(d as int)],
{
    proof {
        reveal_strlit("0");
        reveal_strlit("1");
        reveal_strlit("2");
        reveal_strlit("3");
        reveal_strlit("4");
        reveal_strlit("5");
        reveal_strlit("6");
        reveal_strlit("7");
        reveal_strlit("8");
        reveal_strlit("9");
    }
    let r = if d == 0 {
        "0"
    } else if d == 1 {
        "1"
    } else if d == 2 {
        "2"
    } else if d == 3 {
        "3"
    } else if d == 4 {
        "4"
    } else if d == 5 {
        "5"
    } else if d == 6 {
        "6"
    } else if d == 7 {
        "7"
    } else if d == 8 {
        "8"
    } else {
        "9"
    };
    proof {
        assert(r@ =~= seq![dec_digit_char(d as int)]);
    }
    r
}

/// Renders a number in decimal.
pub fn dec_str(n: usize) -> (s: String)
    ensures
        s@ == spec_dec_str(n as nat),
    decreases n,
{
    if n < 10 {
        String::from_str(digit_str(n))
    } else {
        let mut s = dec_str(n / 10);
        s.append(digit_str(n % 10));
        proof {
            assert(s@ =~= spec_dec_str(n as nat));
        }
        s
    }
}

/// Spec-level model of a lexer diagnostic.
pub struct LexerErrorView {
    pub position: int,
    pub line: int,
    pub message: Seq<char>,
}

/// A diagnostic from the lexer: where scanning failed and why.
#[derive(Debug)]
pub struct LexerError {
    /// Character offset of the offending lexeme's start.
    pub position: usize,
    /// 1-based line the offending lexeme starts on.
    pub line: usize,
    pub message: String,
}

impl View for LexerError {
    type V = LexerErrorView;

    open spec fn view(&self) -> LexerErrorView {
        LexerErrorView {
            position: self.position as int,
            line: self.line as int,
            message: self.message@,
        }
    }
}

impl LexerError {
    /// The human-readable form of the diagnostic.
    pub fn render(&self) -> (s: String)
        ensures
            s@ == "LexerError: error at line "@ + spec_dec_str(self@.line as nat)
                + ", position "@ + spec_dec_str(self@.position as nat) + ": "@ + self@.message,
    {
        let mut s = String::from_str("LexerError: error at line ");
        s.append(dec_str(self.line).as_str());
        s.append(", position ");
        s.append(dec_str(self.position).as_str());
        s.append(": ");
        s.append(self.message.as_str());
        proof {
            assert(s@ =~= "LexerError: error at line "@ + spec_dec_str(self@.line as nat)
                + ", position "@ + spec_dec_str(self@.position as nat) + ": "@ + self@.message);
        }
        s
    }
}

/// Spec-level model of a parser diagnostic.
pub struct ParseErrorView {
    pub position: int,
    pub curr_token: TokenView,
    pub message: Seq<char>,
}

/// A diagnostic from the parser: the cursor position and token where
/// parsing failed, and why.
#[derive(Debug)]
pub struct ParseError {
    /// Index into the token sequence where parsing failed.
    pub position: usize,
    /// The offending token.
    pub curr_token: Token,
    pub message: String,
}

impl View for ParseError {
    type V = ParseErrorView;

    open spec fn view(&self) -> ParseErrorView {
        ParseErrorView {
            position: self.position as int,
            curr_token: self.curr_token@,
            message: self.message@,
        }
    }
}

impl ParseError {
    /// The human-readable form of the diagnostic. The offending token
    /// is shown through its kind's display text.
    pub fn render(&self) -> (s: String)
        ensures
            s@ == "ParseError: error at position "@ + spec_dec_str(self@.position as nat)
                + ", token "@ + crate::token::spec_kind_text(self@.curr_token.kind)
                + ": "@ + self@.message,
    {
        let mut s = String::from_str("ParseError: error at position ");
        s.append(dec_str(self.position).as_str());
        s.append(", token ");
        s.append(self.curr_token.kind.text().as_str());
        s.append(": ");
        s.append(self.message.as_str());
        proof {
            assert(s@ =~= "ParseError: error at position "@ + spec_dec_str(self@.position as nat)
                + ", token "@ + crate::token::spec_kind_text(self@.curr_token.kind)
                + ": "@ + self@.message);
        }
        s
    }
}

} // verus!
