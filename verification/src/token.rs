//! Token representation: a token pairs a kind (possibly carrying a
//! literal payload) with the character span it covers and its line.

use vstd::prelude::*;

verus! {

/// Spec-level model of a token kind: literal payloads are modelled as
/// mathematical values (`Seq<char>`, `int`).
pub enum LexKind {
    LParen,
    RParen,
    LBrace,
    RBrace,
    Comma,
    Dot,
    Plus,
    Minus,
    Star,
    Slash,
    Colon,
    Bang,
    BangEqual,
    Equal,
    EqualEqual,
    Greater,
    GreaterEqual,
    Less,
    LessEqual,
    PlusEqual,
    MinusEqual,
    If,
    Else,
    For,
    While,
    Case,
    Proc,
    Ptr,
    Var,
    IntType,
    StrType,
    Identifier(Seq<char>),
    StringLit(Seq<char>),
    IntLit(int),
    NewLine,
    Eof,
}

/// Spec-level model of a token: its kind, the half-open character span
/// `[start, end)` it covers, and the 1-based line it starts on.
pub struct TokenView {
    pub kind: LexKind,
    pub start: int,
    pub end: int,
    pub line: int,
}

/// The kind of a token. Literal variants carry their decoded payload.
#[derive(Debug, PartialEq)]
pub enum TokenKind {
    LParen,
    RParen,
    LBrace,
    RBrace,
    Comma,
    Dot,
    Plus,
    Minus,
    Star,
    Slash,
    Colon,
    Bang,
    BangEqual,
    Equal,
    EqualEqual,
    Greater,
    GreaterEqual,
    Less,
    LessEqual,
    PlusEqual,
    MinusEqual,
    If,
    Else,
    For,
    While,
    Case,
    Proc,
    Ptr,
    Var,
    IntType,
    StrType,
    Identifier(String),
    StringLit(String),
    IntLit(i32),
    NewLine,
    Eof,
}

impl View for TokenKind {
    type V = LexKind;

    open spec fn view(&self) -> LexKind {
        match self {
            TokenKind::LParen => LexKind::LParen,
            TokenKind::RParen => LexKind::RParen,
            TokenKind::LBrace => LexKind::LBrace,
            TokenKind::RBrace => LexKind::RBrace,
            TokenKind::Comma => LexKind::Comma,
            TokenKind::Dot => LexKind::Dot,
            TokenKind::Plus => LexKind::Plus,
            TokenKind::Minus => LexKind::Minus,
            TokenKind::Star => LexKind::Star,
            TokenKind::Slash => LexKind::Slash,
            TokenKind::Colon => LexKind::Colon,
            TokenKind::Bang => LexKind::Bang,
            TokenKind::BangEqual => LexKind::BangEqual,
            TokenKind::Equal => LexKind::Equal,
            TokenKind::EqualEqual => LexKind::EqualEqual,
            TokenKind::Greater => LexKind::Greater,
            TokenKind::GreaterEqual => LexKind::GreaterEqual,
            TokenKind::Less => LexKind::Less,
            TokenKind::LessEqual => LexKind::LessEqual,
            TokenKind::PlusEqual => LexKind::PlusEqual,
            TokenKind::MinusEqual => LexKind::MinusEqual,
            TokenKind::If => LexKind::If,
            TokenKind::Else => LexKind::Else,
            TokenKind::For => LexKind::For,
            TokenKind::While => LexKind::While,
            TokenKind::Case => LexKind::Case,
            TokenKind::Proc => LexKind::Proc,
            TokenKind::Ptr => LexKind::Ptr,
            TokenKind::Var => LexKind::Var,
            TokenKind::IntType => LexKind::IntType,
            TokenKind::StrType => LexKind::StrType,
            TokenKind::Identifier(s) => LexKind::Identifier(s@),
            TokenKind::StringLit(s) => LexKind::StringLit(s@),
            TokenKind::IntLit(n) => LexKind::IntLit(*n as int),
            TokenKind::NewLine => LexKind::NewLine,
            TokenKind::Eof => LexKind::Eof,
        }
    }
}

impl Clone for TokenKind {
    fn clone(&self) -> (res: Self)
        ensures
            res@ == self@,
    {
        match self {
            TokenKind::LParen => TokenKind::LParen,
            TokenKind::RParen => TokenKind::RParen,
            TokenKind::LBrace => TokenKind::LBrace,
            TokenKind::RBrace => TokenKind::RBrace,
            TokenKind::Comma => TokenKind::Comma,
            TokenKind::Dot => TokenKind::Dot,
            TokenKind::Plus => TokenKind::Plus,
            TokenKind::Minus => TokenKind::Minus,
            TokenKind::Star => TokenKind::Star,
            TokenKind::Slash => TokenKind::Slash,
            TokenKind::Colon => TokenKind::Colon,
            TokenKind::Bang => TokenKind::Bang,
            TokenKind::BangEqual => TokenKind::BangEqual,
            TokenKind::Equal => TokenKind::Equal,
            TokenKind::EqualEqual => TokenKind::EqualEqual,
            TokenKind::Greater => TokenKind::Greater,
            TokenKind::GreaterEqual => TokenKind::GreaterEqual,
            TokenKind::Less => TokenKind::Less,
            TokenKind::LessEqual => TokenKind::LessEqual,
            TokenKind::PlusEqual => TokenKind::PlusEqual,
            TokenKind::MinusEqual => TokenKind::MinusEqual,
            TokenKind::If => TokenKind::If,
            TokenKind::Else => TokenKind::Else,
            TokenKind::For => TokenKind::For,
            TokenKind::While => TokenKind::While,
            TokenKind::Case => TokenKind::Case,
            TokenKind::Proc => TokenKind::Proc,
            TokenKind::Ptr => TokenKind::Ptr,
            TokenKind::Var => TokenKind::Var,
            TokenKind::IntType => TokenKind::IntType,
            TokenKind::StrType => TokenKind::StrType,
            TokenKind::Identifier(s) => TokenKind::Identifier(s.clone()),
            TokenKind::StringLit(s) => TokenKind::StringLit(s.clone()),
            TokenKind::IntLit(n) => TokenKind::IntLit(*n),
            TokenKind::NewLine => TokenKind::NewLine,
            TokenKind::Eof => TokenKind::Eof,
        }
    }
}

/// A token: its kind, the half-open character span `[start, end)` it
/// covers in the source, and the 1-based line it starts on.
#[derive(Debug, PartialEq)]
pub struct Token {
    pub kind: TokenKind,
    pub start: usize,
    pub end: usize,
    pub line: usize,
}

impl View for Token {
    type V = TokenView;

    open spec fn view(&self) -> TokenView {
        TokenView {
            kind: self.kind@,
            start: self.start as int,
            end: self.end as int,
            line: self.line as int,
        }
    }
}

impl Clone for Token {
    fn clone(&self) -> (res: Self)
        ensures
            res@ == self@,
    {
        Token {
            kind: self.kind.clone(),
            start: self.start,
            end: self.end,
            line: self.line,
        }
    }
}

impl Token {
    /// Build a token from its parts.
    pub fn of(kind: TokenKind, start: usize, end: usize, line: usize) -> (t: Token)
        ensures
            t@ == (TokenView { kind: kind@, start: start as int, end: end as int, line: line as int }),
    {
        Token { kind, start, end, line }
    }
}

/// The display text of a token kind: the symbol for single-character
/// punctuation and operators, `"unknown"` for everything else.
pub open spec fn spec_kind_text(k: LexKind) -> Seq<char> {
    match k {
        LexKind::LParen => "("@,
        LexKind::RParen => ")"@,
        LexKind::LBrace => "{"@,
        LexKind::RBrace => "}"@,
        LexKind::Comma => ","@,
        LexKind::Dot => "."@,
        LexKind::Plus => "+"@,
        LexKind::Minus => "-"@,
        LexKind::Star => "*"@,
        LexKind::Slash => "/"@,
        _ => "unknown"@,
    }
}

impl TokenKind {
    /// The display text of this kind, as `spec_kind_text` gives it.
    pub fn text(&self) -> (s: String)
        ensures
            s@ == spec_kind_text(self@),
    {
        match self {
            TokenKind::LParen => String::from_str("("),
            TokenKind::RParen => String::from_str(")"),
            TokenKind::LBrace => String::from_str("{"),
            TokenKind::RBrace => String::from_str("}"),
            TokenKind::Comma => String::from_str(","),
            TokenKind::Dot => String::from_str("."),
            TokenKind::Plus => String::from_str("+"),
            TokenKind::Minus => String::from_str("-"),
            TokenKind::Star => String::from_str("*"),
            TokenKind::Slash => String::from_str("/"),
            _ => String::from_str("unknown"),
        }
    }
}

/// The models of a sequence of tokens.
pub open spec fn toks_view(ts: Seq<Token>) -> Seq<TokenView> {
    ts.map_values(|t: Token| t@)
}

/// Whether two token kinds are the same, payloads included.
#[verifier::rlimit(50)]
pub fn kind_eq(a: &TokenKind, b: &TokenKind) -> (r: bool)
    ensures
        r == (a@ == b@),
{
    match (a, b) {
        (TokenKind::LParen, TokenKind::LParen) => true,
        (TokenKind::RParen, TokenKind::RParen) => true,
        (TokenKind::LBrace, TokenKind::LBrace) => true,
        (TokenKind::RBrace, TokenKind::RBrace) => true,
        (TokenKind::Comma, TokenKind::Comma) => true,
        (TokenKind::Dot, TokenKind::Dot) => true,
        (TokenKind::Plus, TokenKind::Plus) => true,
        (TokenKind::Minus, TokenKind::Minus) => true,
        (TokenKind::Star, TokenKind::Star) => true,
        (TokenKind::Slash, TokenKind::Slash) => true,
        (TokenKind::Colon, TokenKind::Colon) => true,
        (TokenKind::Bang, TokenKind::Bang) => true,
        (TokenKind::BangEqual, TokenKind::BangEqual) => true,
        (TokenKind::Equal, TokenKind::Equal) => true,
        (TokenKind::EqualEqual, TokenKind::EqualEqual) => true,
        (TokenKind::Greater, TokenKind::Greater) => true,
        (TokenKind::GreaterEqual, TokenKind::GreaterEqual) => true,
        (TokenKind::Less, TokenKind::Less) => true,
        (TokenKind::LessEqual, TokenKind::LessEqual) => true,
        (TokenKind::PlusEqual, TokenKind::PlusEqual) => true,
        (TokenKind::MinusEqual, TokenKind::MinusEqual) => true,
        (TokenKind::If, TokenKind::If) => true,
        (TokenKind::Else, TokenKind::Else) => true,
        (TokenKind::For, TokenKind::For) => true,
        (TokenKind::While, TokenKind::While) => true,
        (TokenKind::Case, TokenKind::Case) => true,
        (TokenKind::Proc, TokenKind::Proc) => true,
        (TokenKind::Ptr, TokenKind::Ptr) => true,
        (TokenKind::Var, TokenKind::Var) => true,
        (TokenKind::IntType, TokenKind::IntType) => true,
        (TokenKind::StrType, TokenKind::StrType) => true,
        (TokenKind::Identifier(x), TokenKind::Identifier(y)) => *x == *y,
        (TokenKind::StringLit(x), TokenKind::StringLit(y)) => *x == *y,
        (TokenKind::IntLit(x), TokenKind::IntLit(y)) => x == y,
        (TokenKind::NewLine, TokenKind::NewLine) => true,
        (TokenKind::Eof, TokenKind::Eof) => true,
        _ => false,
    }
}

} // verus!
