//! The lexer: a single left-to-right pass over the source text that
//! produces a sequence of positioned tokens, always terminated by one
//! end-of-stream token.
//!
//! The spec model is `spec_scan`: a recursive function over the source
//! as a `Seq<char>` that gives, for every input, either the exact token
//! sequence or the exact diagnostic. `Lexer::scan` is proved to return
//! precisely that.

use vstd::prelude::*;

use crate::errors::{LexerError, LexerErrorView};
use crate::token::{toks_view, LexKind, Token, TokenKind, TokenView};

verus! {

// ---------------------------------------------------------------------
// Character classes
// ---------------------------------------------------------------------
/// Decimal digit `0..=9`.
pub open spec fn is_dec_digit(c: char) -> bool {
    '0' <= c && c <= '9'
}

/// Hexadecimal digit `0..=9`, `a..=f`, `A..=F`.
pub open spec fn is_hex_digit(c: char) -> bool {
    is_dec_digit(c) || ('a' <= c && c <= 'f') || ('A' <= c && c <= 'F')
}

/// Binary digit `0` or `1`.
pub open spec fn is_bin_digit(c: char) -> bool {
    c == '0' || c == '1'
}

/// A digit of the given radix (2, 10 or 16).
pub open spec fn is_radix_digit(c: char, base: int) -> bool {
    if base == 16 {
        is_hex_digit(c)
    } else if base == 2 {
        is_bin_digit(c)
    } else {
        is_dec_digit(c)
    }
}

/// A character that may appear in an identifier: ASCII alphabetic or
/// underscore.
pub open spec fn is_ident_char(c: char) -> bool {
    ('a' <= c && c <= 'z') || ('A' <= c && c <= 'Z') || c == '_'
}

/// Whitespace that is skipped without a token. Newline is excluded:
/// it is significant and gets its own token.
pub open spec fn is_inline_space(c: char) -> bool {
    c == ' ' || c == '\t' || c == '\r' || c == '\u{b}' || c == '\u{c}'
}

/// The character at `i`, or the NUL sentinel past the end.
pub open spec fn char_at(s: Seq<char>, i: int) -> char {
    if 0 <= i && i < s.len() {
        s[i]
    } else {
        '\0'
    }
}

// ---------------------------------------------------------------------
// Runs of characters
// ---------------------------------------------------------------------
/// First index at or after `i` holding no digit of `base`.
pub open spec fn radix_run_end(s: Seq<char>, i: int, base: int) -> int
    decreases s.len() - i,
        when 0 <= i <= s.len()
{
    if i < s.len() && is_radix_digit(s[i], base) {
        radix_run_end(s, i + 1, base)
    } else {
        i
    }
}

pub proof fn lemma_radix_run_end(s: Seq<char>, i: int, base: int)
    requires
        0 <= i <= s.len(),
    ensures
        i <= radix_run_end(s, i, base) <= s.len(),
        forall|j: int| i <= j < radix_run_end(s, i, base) ==> is_radix_digit(#[trigger] s[j], base),
        radix_run_end(s, i, base) < s.len() ==> !is_radix_digit(s[radix_run_end(s, i, base)], base),
    decreases s.len() - i,
{
    if i < s.len() && is_radix_digit(s[i], base) {
        lemma_radix_run_end(s, i + 1, base);
    }
}

/// First index at or after `i` holding no identifier character.
pub open spec fn ident_run_end(s: Seq<char>, i: int) -> int
    decreases s.len() - i,
        when 0 <= i <= s.len()
{
    if i < s.len() && is_ident_char(s[i]) {
        ident_run_end(s, i + 1)
    } else {
        i
    }
}

pub proof fn lemma_ident_run_end(s: Seq<char>, i: int)
    requires
        0 <= i <= s.len(),
    ensures
        i <= ident_run_end(s, i) <= s.len(),
        forall|j: int| i <= j < ident_run_end(s, i) ==> is_ident_char(#[trigger] s[j]),
        ident_run_end(s, i) < s.len() ==> !is_ident_char(s[ident_run_end(s, i)]),
    decreases s.len() - i,
{
    if i < s.len() && is_ident_char(s[i]) {
        lemma_ident_run_end(s, i + 1);
    }
}

/// First index at or after `i` holding a newline, or the end of input:
/// where a comment that starts before `i` stops skipping.
pub open spec fn comment_run_end(s: Seq<char>, i: int) -> int
    decreases s.len() - i,
        when 0 <= i <= s.len()
{
    if i < s.len() && s[i] != '\n' {
        comment_run_end(s, i + 1)
    } else {
        i
    }
}

pub proof fn lemma_comment_run_end(s: Seq<char>, i: int)
    requires
        0 <= i <= s.len(),
    ensures
        i <= comment_run_end(s, i) <= s.len(),
        forall|j: int| i <= j < comment_run_end(s, i) ==> #[trigger] s[j] != '\n',
        comment_run_end(s, i) < s.len() ==> s[comment_run_end(s, i)] == '\n',
    decreases s.len() - i,
{
    if i < s.len() && s[i] != '\n' {
        lemma_comment_run_end(s, i + 1);
    }
}

// ---------------------------------------------------------------------
// Integer literal values
// ---------------------------------------------------------------------
/// The numeric value of one digit character (letters for 10..=15).
pub open spec fn digit_val(c: char) -> int {
    if is_dec_digit(c) {
        c as int - '0' as int
    } else if 'a' <= c && c <= 'f' {
        10 + c as int - 'a' as int
    } else if 'A' <= c && c <= 'F' {
        10 + c as int - 'A' as int
    } else {
        0
    }
}

/// The value of a digit sequence read most significant digit first in
/// the given base.
pub open spec fn radix_val(ds: Seq<char>, base: int) -> int
    decreases ds.len(),
{
    if ds.len() == 0 {
        0
    } else {
        radix_val(ds.drop_last(), base) * base + digit_val(ds.last())
    }
}

pub proof fn lemma_radix_val_nonneg(ds: Seq<char>, base: int)
    requires
        base >= 2,
    ensures
        radix_val(ds, base) >= 0,
    decreases ds.len(),
{
    if ds.len() > 0 {
        lemma_radix_val_nonneg(ds.drop_last(), base);
    }
}

/// Extending a digit sequence never shrinks its value.
pub proof fn lemma_radix_val_prefix(ds: Seq<char>, i: int, base: int)
    requires
        base >= 2,
        0 <= i <= ds.len(),
    ensures
        radix_val(ds.take(i), base) <= radix_val(ds, base),
    decreases ds.len() - i,
{
    if i < ds.len() {
        lemma_radix_val_prefix(ds, i + 1, base);
        lemma_radix_val_nonneg(ds.take(i), base);
        assert(ds.take(i + 1).drop_last() =~= ds.take(i));
        assert(ds.take(i + 1).last() == ds[i]);
        let v = radix_val(ds.take(i), base);
        let d = digit_val(ds[i]);
        assert(d >= 0);
        assert(v <= v * base + d) by (nonlinear_arith)
            requires
                v >= 0,
                base >= 2,
                d >= 0,
        ;
        assert(radix_val(ds.take(i), base) <= radix_val(ds.take(i + 1), base));
        assert(ds.take(ds.len() as int) =~= ds);
    } else {
        assert(ds.take(i) =~= ds);
    }
}

// ---------------------------------------------------------------------
// String literals
// ---------------------------------------------------------------------
/// The decoded character of an escape pair `\x`, if `x` forms one.
pub open spec fn escape_char(c: char) -> Option<char> {
    if c == 'n' {
        Some('\n')
    } else if c == 't' {
        Some('\t')
    } else if c == 'r' {
        Some('\r')
    } else if c == '\\' {
        Some('\\')
    } else {
        None
    }
}

/// Scans the body of a string literal from `i` (just past the opening
/// quote): the decoded content and the position of the closing quote,
/// or `None` if the input ends first.
pub open spec fn string_body(s: Seq<char>, i: int) -> Option<(Seq<char>, int)>
    decreases s.len() - i,
        when 0 <= i <= s.len()
{
    if i >= s.len() {
        None
    } else if s[i] == '"' {
        Some((Seq::empty(), i))
    } else if s[i] == '\\' {
        match escape_char(char_at(s, i + 1)) {
            Some(e) => match string_body(s, i + 2) {
                Some((content, close)) => Some((seq![e] + content, close)),
                None => None,
            },
            None => match string_body(s, i + 1) {
                Some((content, close)) => Some((seq![s[i]] + content, close)),
                None => None,
            },
        }
    } else {
        match string_body(s, i + 1) {
            Some((content, close)) => Some((seq![s[i]] + content, close)),
            None => None,
        }
    }
}

pub proof fn lemma_string_body_bounds(s: Seq<char>, i: int)
    requires
        0 <= i <= s.len(),
    ensures
        string_body(s, i) matches Some(r) ==> i <= r.1 < s.len() && s[r.1] == '"',
    decreases s.len() - i,
{
    if i < s.len() && s[i] != '"' {
        if s[i] == '\\' && escape_char(char_at(s, i + 1)) is Some {
            lemma_string_body_bounds(s, i + 2);
        } else {
            lemma_string_body_bounds(s, i + 1);
        }
    }
}

// ---------------------------------------------------------------------
// Keywords
// ---------------------------------------------------------------------
/// The keyword table: the token kind reserved for a word, if any.
pub open spec fn spec_keyword(w: Seq<char>) -> Option<LexKind> {
    if w == "if"@ {
        Some(LexKind::If)
    } else if w == "else"@ {
        Some(LexKind::Else)
    } else if w == "for"@ {
        Some(LexKind::For)
    } else if w == "while"@ {
        Some(LexKind::While)
    } else if w == "case"@ {
        Some(LexKind::Case)
    } else if w == "proc"@ {
        Some(LexKind::Proc)
    } else if w == "ptr"@ {
        Some(LexKind::Ptr)
    } else if w == "var"@ {
        Some(LexKind::Var)
    } else if w == "int"@ {
        Some(LexKind::IntType)
    } else if w == "str"@ {
        Some(LexKind::StrType)
    } else {
        None
    }
}

/// The kind an identifier run lexes to: its keyword kind if reserved,
/// otherwise an identifier carrying the text.
pub open spec fn ident_kind(w: Seq<char>) -> LexKind {
    match spec_keyword(w) {
        Some(k) => k,
        None => LexKind::Identifier(w),
    }
}

// ---------------------------------------------------------------------
// The scan itself
// ---------------------------------------------------------------------
/// Shorthand for a token model.
pub open spec fn tok(kind: LexKind, start: int, end: int, line: int) -> TokenView {
    TokenView { kind, start, end, line }
}

/// Shorthand for a lexer diagnostic model.
pub open spec fn lex_err(position: int, line: int, message: Seq<char>) -> LexerErrorView {
    LexerErrorView { position, line, message }
}

/// Prepends one token to a scan result, keeping an error as it is.
pub open spec fn with_token(
    t: TokenView,
    r: Result<Seq<TokenView>, LexerErrorView>,
) -> Result<Seq<TokenView>, LexerErrorView> {
    match r {
        Ok(ts) => Ok(seq![t] + ts),
        Err(e) => Err(e),
    }
}

/// The token for an integer literal starting at `pos` (which holds a
/// decimal digit) and the position after it, or the diagnostic: a
/// leading `0x`/`0b` switches the radix, the digit run is taken
/// greedily, and the value must fit in an `i32`. A radix prefix with
/// no digit after it is malformed.
pub open spec fn int_token_result(s: Seq<char>, pos: int, line: int) -> Result<
    (TokenView, int),
    LexerErrorView,
> {
    if char_at(s, pos) == '0' && char_at(s, pos + 1) == 'x' {
        let e = radix_run_end(s, pos + 2, 16);
        let v = radix_val(s.subrange(pos + 2, e), 16);
        if e == pos + 2 || v > i32::MAX as int {
            Err(lex_err(pos, line, "invalid integer literal"@))
        } else {
            Ok((tok(LexKind::IntLit(v), pos, e, line), e))
        }
    } else if char_at(s, pos) == '0' && char_at(s, pos + 1) == 'b' {
        let e = radix_run_end(s, pos + 2, 2);
        let v = radix_val(s.subrange(pos + 2, e), 2);
        if e == pos + 2 || v > i32::MAX as int {
            Err(lex_err(pos, line, "invalid integer literal"@))
        } else {
            Ok((tok(LexKind::IntLit(v), pos, e, line), e))
        }
    } else {
        let e = radix_run_end(s, pos, 10);
        let v = radix_val(s.subrange(pos, e), 10);
        if v > i32::MAX as int {
            Err(lex_err(pos, line, "invalid integer literal"@))
        } else {
            Ok((tok(LexKind::IntLit(v), pos, e, line), e))
        }
    }
}

/// The tokens of the source from position `pos` on (current line
/// number `line`), or the first diagnostic. Dispatches on the current
/// character and one character of lookahead; two-character operators
/// are tried before their one-character prefix; characters that start
/// no token are skipped silently.
pub open spec fn spec_scan_from(s: Seq<char>, pos: int, line: int) -> Result<
    Seq<TokenView>,
    LexerErrorView,
>
    decreases s.len() - pos,
        when 0 <= pos
        via spec_scan_from_decreases
{
    if pos >= s.len() {
        Ok(seq![tok(LexKind::Eof, s.len() as int, s.len() as int, line)])
    } else {
        let c = s[pos];
        let c1 = char_at(s, pos + 1);
        if c == '(' {
            with_token(tok(LexKind::LParen, pos, pos + 1, line), spec_scan_from(s, pos + 1, line))
        } else if c == ')' {
            with_token(tok(LexKind::RParen, pos, pos + 1, line), spec_scan_from(s, pos + 1, line))
        } else if c == '{' {
            with_token(tok(LexKind::LBrace, pos, pos + 1, line), spec_scan_from(s, pos + 1, line))
        } else if c == '}' {
            with_token(tok(LexKind::RBrace, pos, pos + 1, line), spec_scan_from(s, pos + 1, line))
        } else if c == ',' {
            with_token(tok(LexKind::Comma, pos, pos + 1, line), spec_scan_from(s, pos + 1, line))
        } else if c == '.' {
            with_token(tok(LexKind::Dot, pos, pos + 1, line), spec_scan_from(s, pos + 1, line))
        } else if c == '+' && c1 == '=' {
            with_token(
                tok(LexKind::PlusEqual, pos, pos + 2, line),
                spec_scan_from(s, pos + 2, line),
            )
        } else if c == '+' {
            with_token(tok(LexKind::Plus, pos, pos + 1, line), spec_scan_from(s, pos + 1, line))
        } else if c == '-' && c1 == '=' {
            with_token(
                tok(LexKind::MinusEqual, pos, pos + 2, line),
                spec_scan_from(s, pos + 2, line),
            )
        } else if c == '-' {
            with_token(tok(LexKind::Minus, pos, pos + 1, line), spec_scan_from(s, pos + 1, line))
        } else if c == '*' {
            with_token(tok(LexKind::Star, pos, pos + 1, line), spec_scan_from(s, pos + 1, line))
        } else if c == '/' {
            with_token(tok(LexKind::Slash, pos, pos + 1, line), spec_scan_from(s, pos + 1, line))
        } else if c == ':' {
            with_token(tok(LexKind::Colon, pos, pos + 1, line), spec_scan_from(s, pos + 1, line))
        } else if c == '!' && c1 == '=' {
            with_token(
                tok(LexKind::BangEqual, pos, pos + 2, line),
                spec_scan_from(s, pos + 2, line),
            )
        } else if c == '=' && c1 == '=' {
            with_token(
                tok(LexKind::EqualEqual, pos, pos + 2, line),
                spec_scan_from(s, pos + 2, line),
            )
        } else if c == '<' && c1 == '=' {
            with_token(
                tok(LexKind::LessEqual, pos, pos + 2, line),
                spec_scan_from(s, pos + 2, line),
            )
        } else if c == '>' && c1 == '=' {
            with_token(
                tok(LexKind::GreaterEqual, pos, pos + 2, line),
                spec_scan_from(s, pos + 2, line),
            )
        } else if c == '=' {
            with_token(tok(LexKind::Equal, pos, pos + 1, line), spec_scan_from(s, pos + 1, line))
        } else if c == '<' {
            with_token(tok(LexKind::Less, pos, pos + 1, line), spec_scan_from(s, pos + 1, line))
        } else if c == '>' {
            with_token(tok(LexKind::Greater, pos, pos + 1, line), spec_scan_from(s, pos + 1, line))
        } else if c == '"' {
            match string_body(s, pos + 1) {
                Some((content, close)) => with_token(
                    tok(LexKind::StringLit(content), pos, close + 1, line),
                    spec_scan_from(s, close + 1, line),
                ),
                None => Err(lex_err(pos, line, "unexpected end of string"@)),
            }
        } else if is_inline_space(c) {
            spec_scan_from(s, pos + 1, line)
        } else if is_dec_digit(c) {
            match int_token_result(s, pos, line) {
                Ok((t, next)) => with_token(t, spec_scan_from(s, next, line)),
                Err(e) => Err(e),
            }
        } else if is_ident_char(c) {
            let e = ident_run_end(s, pos);
            with_token(
                tok(ident_kind(s.subrange(pos, e)), pos, e, line),
                spec_scan_from(s, e, line),
            )
        } else if c == '#' {
            let e = comment_run_end(s, pos);
            let next = if e < s.len() {
                e + 1
            } else {
                e
            };
            spec_scan_from(s, next, line + 1)
        } else if c == '\n' {
            with_token(
                tok(LexKind::NewLine, pos, pos + 1, line),
                spec_scan_from(s, pos + 1, line + 1),
            )
        } else if c == '\\' && c1 == '\n' {
            spec_scan_from(s, pos + 2, line + 1)
        } else {
            spec_scan_from(s, pos + 1, line)
        }
    }
}

#[via_fn]
proof fn spec_scan_from_decreases(s: Seq<char>, pos: int, line: int) {
    if 0 <= pos && pos < s.len() {
        if pos + 2 <= s.len() {
            lemma_radix_run_end(s, pos + 2, 16);
            lemma_radix_run_end(s, pos + 2, 2);
        }
        lemma_radix_run_end(s, pos, 10);
        lemma_ident_run_end(s, pos);
        lemma_comment_run_end(s, pos);
        lemma_string_body_bounds(s, pos + 1);
    }
}

/// The complete scan of a source text: all its tokens, ending with the
/// end-of-stream token, or the first diagnostic. Scanning starts at
/// the first character on line 1.
pub open spec fn spec_scan(s: Seq<char>) -> Result<Seq<TokenView>, LexerErrorView> {
    spec_scan_from(s, 0, 1)
}

proof fn lemma_scan_from_eof(s: Seq<char>, pos: int, line: int)
    requires
        0 <= pos,
    ensures
        spec_scan_from(s, pos, line) matches Ok(ts) ==> ts.len() >= 1 && ts.last().kind is Eof
            && (forall|i: int| 0 <= i < ts.len() - 1 ==> !(#[trigger] ts[i].kind is Eof)),
    decreases s.len() - pos,
{
    if pos < s.len() {
        let c = s[pos];
        lemma_scan_from_eof(s, pos + 1, line);
        lemma_scan_from_eof(s, pos + 1, line + 1);
        if pos + 2 <= s.len() {
            lemma_scan_from_eof(s, pos + 2, line);
            lemma_scan_from_eof(s, pos + 2, line + 1);
        }
        if is_dec_digit(c) {
            lemma_radix_run_end(s, pos, 10);
            lemma_scan_from_eof(s, radix_run_end(s, pos, 10), line);
            if pos + 2 <= s.len() {
                lemma_radix_run_end(s, pos + 2, 16);
                if radix_run_end(s, pos + 2, 16) > pos {
                    lemma_scan_from_eof(s, radix_run_end(s, pos + 2, 16), line);
                }
                lemma_radix_run_end(s, pos + 2, 2);
                if radix_run_end(s, pos + 2, 2) > pos {
                    lemma_scan_from_eof(s, radix_run_end(s, pos + 2, 2), line);
                }
            }
        }
        if is_ident_char(c) {
            lemma_ident_run_end(s, pos);
            lemma_scan_from_eof(s, ident_run_end(s, pos), line);
        }
        if c == '#' {
            lemma_comment_run_end(s, pos);
            let e = comment_run_end(s, pos);
            if e < s.len() {
                lemma_scan_from_eof(s, e + 1, line + 1);
            } else {
                lemma_scan_from_eof(s, e, line + 1);
            }
        }
        if c == '"' {
            lemma_string_body_bounds(s, pos + 1);
            match string_body(s, pos + 1) {
                Some(pair) => {
                    lemma_scan_from_eof(s, pair.1 + 1, line);
                },
                None => {},
            }
        }
    }
}

/// For every source text, a successful scan yields at least one
/// token, its last token is the end-of-stream token, and no
/// end-of-stream token stands anywhere else in the sequence.
pub proof fn lemma_scan_single_eof(s: Seq<char>)
    ensures
        spec_scan(s) matches Ok(ts) ==> ts.len() >= 1 && ts.last().kind is Eof && (forall|i: int|
            0 <= i < ts.len() - 1 ==> !(#[trigger] ts[i].kind is Eof)),
{
    lemma_scan_from_eof(s, 0, 1);
}

// ---------------------------------------------------------------------
// Executable helpers
// ---------------------------------------------------------------------
/// Prepends already-produced tokens to the result for the rest of the
/// input, keeping an error as it is.
pub open spec fn scan_prepend(
    p: Seq<TokenView>,
    r: Result<Seq<TokenView>, LexerErrorView>,
) -> Result<Seq<TokenView>, LexerErrorView> {
    match r {
        Ok(ts) => Ok(p + ts),
        Err(e) => Err(e),
    }
}

proof fn lemma_scan_prepend_token(
    p: Seq<TokenView>,
    t: TokenView,
    r: Result<Seq<TokenView>, LexerErrorView>,
)
    ensures
        scan_prepend(p.push(t), r) == scan_prepend(p, with_token(t, r)),
{
    match r {
        Ok(ts) => {
            assert(p.push(t) + ts =~= p + (seq![t] + ts));
        },
        Err(_) => {},
    }
}

/// Whether two string slices hold the same characters.
fn str_eq(a: &str, b: &str) -> (r: bool)
    ensures
        r == (a@ == b@),
{
    let n = a.unicode_len();
    let m = b.unicode_len();
    if n != m {
        return false;
    }
    let mut i: usize = 0;
    while i < n
        invariant
            i <= n,
            n == a@.len(),
            n == b@.len(),
            forall|j: int| 0 <= j < i ==> a@[j] == b@[j],
        decreases n - i,
    {
        if a.get_char(i) != b.get_char(i) {
            return false;
        }
        i += 1;
    }
    proof {
        assert(a@ =~= b@);
    }
    true
}

/// The reserved-word kind for an identifier run, if it is one.
fn keyword_kind(text: &str) -> (k: Option<TokenKind>)
    ensures
        match k {
            Some(kind) => spec_keyword(text@) == Some(kind@),
            None => spec_keyword(text@) is None,
        },
{
    if str_eq(text, "if") {
        Some(TokenKind::If)
    } else if str_eq(text, "else") {
        Some(TokenKind::Else)
    } else if str_eq(text, "for") {
        Some(TokenKind::For)
    } else if str_eq(text, "while") {
        Some(TokenKind::While)
    } else if str_eq(text, "case") {
        Some(TokenKind::Case)
    } else if str_eq(text, "proc") {
        Some(TokenKind::Proc)
    } else if str_eq(text, "ptr") {
        Some(TokenKind::Ptr)
    } else if str_eq(text, "var") {
        Some(TokenKind::Var)
    } else if str_eq(text, "int") {
        Some(TokenKind::IntType)
    } else if str_eq(text, "str") {
        Some(TokenKind::StrType)
    } else {
        None
    }
}

/// Relies on `String::push` from std: it appends exactly the one
/// character to the end of the string.
#[verifier::external_body]
fn push_char(s: &mut String, c: char)
    ensures
        final(s)@ == old(s)@.push(c),
{
    s.push(c);
}

/// Whether `c` is a digit of the radix (2, 10 or 16).
fn is_radix_digit_exec(c: char, base: u32) -> (r: bool)
    requires
        base == 2 || base == 10 || base == 16,
    ensures
        r == is_radix_digit(c, base as int),
{
    if base == 16 {
        ('0' <= c && c <= '9') || ('a' <= c && c <= 'f') || ('A' <= c && c <= 'F')
    } else if base == 2 {
        c == '0' || c == '1'
    } else {
        '0' <= c && c <= '9'
    }
}

/// The numeric value of a digit character.
fn digit_value(c: char) -> (d: u32)
    requires
        is_hex_digit(c),
    ensures
        d as int == digit_val(c),
        d < 16,
{
    let u = c as u32;
    if '0' <= c && c <= '9' {
        u - ('0' as u32)
    } else if 'a' <= c && c <= 'f' {
        10 + (u - ('a' as u32))
    } else {
        10 + (u - ('A' as u32))
    }
}

/// Decodes the digit run `src[from..to]` in the given radix, or
/// reports that its value does not fit a 32-bit signed integer.
fn decode_radix(src: &str, from: usize, to: usize, base: u32) -> (r: Option<i32>)
    requires
        base == 2 || base == 10 || base == 16,
        from <= to <= src@.len(),
        forall|j: int| from <= j < to ==> is_radix_digit(#[trigger] src@[j], base as int),
    ensures
        match r {
            Some(v) => v as int == radix_val(src@.subrange(from as int, to as int), base as int),
            None => radix_val(src@.subrange(from as int, to as int), base as int) > i32::MAX
                as int,
        },
{
    let ghost ds = src@.subrange(from as int, to as int);
    let mut val: u64 = 0;
    let mut i = from;
    while i < to
        invariant
            from <= i <= to <= src@.len(),
            base == 2 || base == 10 || base == 16,
            forall|j: int| from <= j < to ==> is_radix_digit(#[trigger] src@[j], base as int),
            ds == src@.subrange(from as int, to as int),
            val as int == radix_val(ds.take(i - from), base as int),
            val <= i32::MAX as u64,
        decreases to - i,
    {
        let c = src.get_char(i);
        assert(c == ds[i - from]);
        let d = digit_value(c);
        assert(val * (base as u64) + (d as u64) <= 0x7fffffffu64 * 16 + 15) by (nonlinear_arith)
            requires
                val <= 0x7fffffffu64,
                base <= 16u32,
                d < 16u32,
        ;
        let next: u64 = val * (base as u64) + (d as u64);
        proof {
            assert(ds.take(i - from + 1).drop_last() =~= ds.take(i - from));
            assert(ds.take(i - from + 1).last() == ds[i - from]);
        }
        if next > 0x7fffffff {
            proof {
                lemma_radix_val_prefix(ds, i - from + 1, base as int);
            }
            return None;
        }
        val = next;
        i += 1;
    }
    proof {
        assert(ds.take(to - from) =~= ds);
    }
    Some(val as i32)
}

/// Prepends already-decoded characters to the rest of a string
/// literal body.
pub open spec fn sb_prepend(p: Seq<char>, o: Option<(Seq<char>, int)>) -> Option<
    (Seq<char>, int),
> {
    match o {
        Some((content, close)) => Some((p + content, close)),
        None => None,
    }
}

// ---------------------------------------------------------------------
// The lexer
// ---------------------------------------------------------------------
/// Scans a borrowed source text once, left to right.
pub struct Lexer<'lex> {
    /// Start of the lexeme being scanned.
    start: usize,
    /// The read cursor.
    current: usize,
    /// Current 1-based line number.
    line: usize,
    source: &'lex str,
}

impl<'lex> Lexer<'lex> {
    /// The source text being scanned.
    pub closed spec fn chars(&self) -> Seq<char> {
        self.source@
    }

    /// The read cursor, as a character offset.
    pub closed spec fn cur(&self) -> int {
        self.current as int
    }

    /// The start of the lexeme being scanned.
    pub closed spec fn mark(&self) -> int {
        self.start as int
    }

    /// The current 1-based line number.
    pub closed spec fn line_no(&self) -> int {
        self.line as int
    }

    /// A lexer at the start of the source, on line 1.
    pub fn new(source: &'lex str) -> (lx: Lexer<'lex>)
        ensures
            lx.chars() == source@,
            lx.cur() == 0,
            lx.mark() == 0,
            lx.line_no() == 1,
    {
        Lexer { start: 0, current: 0, line: 1, source }
    }

    /// Whether the cursor is past the last character.
    fn at_end(&self) -> (r: bool)
        ensures
            r == (self.cur() >= self.chars().len()),
            self.chars().len() <= usize::MAX,
    {
        self.current >= self.source.unicode_len()
    }

    /// The character under the cursor, or the NUL sentinel at the end.
    fn peek(&self) -> (c: char)
        ensures
            c == char_at(self.chars(), self.cur()),
    {
        if self.current >= self.source.unicode_len() {
            '\0'
        } else {
            self.source.get_char(self.current)
        }
    }

    /// The character `ahead` places past the cursor, or the NUL
    /// sentinel past the end.
    fn peek_next(&self, ahead: usize) -> (c: char)
        requires
            self.cur() + ahead <= usize::MAX,
        ensures
            c == char_at(self.chars(), self.cur() + ahead),
    {
        if self.current + ahead >= self.source.unicode_len() {
            '\0'
        } else {
            self.source.get_char(self.current + ahead)
        }
    }

    /// Moves the cursor forward by one character.
    fn advance(&mut self)
        requires
            old(self).cur() < usize::MAX,
        ensures
            final(self).chars() == old(self).chars(),
            final(self).cur() == old(self).cur() + 1,
            final(self).mark() == old(self).mark(),
            final(self).line_no() == old(self).line_no(),
    {
        self.current += 1;
    }

    /// Appends a token spanning from the mark to `length` characters
    /// past the cursor, and moves the cursor there.
    fn push(&mut self, tokens: &mut Vec<Token>, length: usize, kind: TokenKind)
        requires
            old(self).cur() + length <= usize::MAX,
        ensures
            final(self).chars() == old(self).chars(),
            final(self).cur() == old(self).cur() + length,
            final(self).mark() == old(self).mark(),
            final(self).line_no() == old(self).line_no(),
            toks_view(final(tokens)@) == toks_view(old(tokens)@).push(
                tok(kind@, old(self).mark(), old(self).cur() + length, old(self).line_no()),
            ),
    {
        let ghost kv = kind@;
        let end = self.current + length;
        tokens.push(Token::of(kind, self.start, end, self.line));
        self.current = end;
        proof {
            assert(toks_view(tokens@) =~= toks_view(old(tokens)@).push(
                tok(kv, old(self).mark(), old(self).cur() + length, old(self).line_no()),
            ));
        }
    }

    /// Moves the cursor to the end of the digit run of the radix.
    fn advance_radix_run(&mut self, base: u32)
        requires
            base == 2 || base == 10 || base == 16,
            0 <= old(self).cur() <= old(self).chars().len(),
            old(self).chars().len() < usize::MAX,
        ensures
            final(self).chars() == old(self).chars(),
            final(self).mark() == old(self).mark(),
            final(self).line_no() == old(self).line_no(),
            final(self).cur() == radix_run_end(old(self).chars(), old(self).cur(), base as int),
            old(self).cur() <= final(self).cur() <= old(self).chars().len(),
    {
        let ghost s = self.chars();
        let ghost c0 = self.cur();
        loop
            invariant
                self.chars() == s,
                s.len() < usize::MAX,
                self.mark() == old(self).mark(),
                self.line_no() == old(self).line_no(),
                c0 <= self.cur() <= s.len(),
                base == 2 || base == 10 || base == 16,
                radix_run_end(s, c0, base as int) == radix_run_end(s, self.cur(), base as int),
            ensures
                self.chars() == s,
                self.mark() == old(self).mark(),
                self.line_no() == old(self).line_no(),
                c0 <= self.cur() <= s.len(),
                radix_run_end(s, c0, base as int) == radix_run_end(s, self.cur(), base as int),
                !(self.cur() < s.len() && is_radix_digit(char_at(s, self.cur()), base as int)),
            decreases s.len() - self.cur(),
        {
            if self.at_end() {
                break;
            }
            let c = self.peek();
            if !is_radix_digit_exec(c, base) {
                break;
            }
            self.advance();
        }
        proof {
            lemma_radix_run_end(s, self.cur(), base as int);
        }
    }

    /// Scans an integer literal: decimal by default, hexadecimal after
    /// a leading `0x`, binary after a leading `0b`. The decoded value
    /// must fit a 32-bit signed integer.
    fn scan_int(&mut self, tokens: &mut Vec<Token>) -> (r: Result<(), LexerError>)
        requires
            0 <= old(self).cur() < old(self).chars().len(),
            old(self).chars().len() < usize::MAX,
            is_dec_digit(old(self).chars()[old(self).cur()]),
            old(self).mark() == old(self).cur(),
        ensures
            final(self).chars() == old(self).chars(),
            final(self).mark() == old(self).mark(),
            final(self).line_no() == old(self).line_no(),
            old(self).cur() <= final(self).cur() <= old(self).chars().len(),
            match r {
                Ok(_) => old(self).cur() < final(self).cur() && (int_token_result(
                    old(self).chars(),
                    old(self).cur(),
                    old(self).line_no(),
                ) matches Ok(p) && toks_view(final(tokens)@) == toks_view(old(tokens)@).push(p.0)
                    && final(self).cur() == p.1),
                Err(e) => int_token_result(
                    old(self).chars(),
                    old(self).cur(),
                    old(self).line_no(),
                ) matches Err(ev) && e@ == ev && final(tokens)@ == old(tokens)@,
            },
    {
        let ghost s = self.chars();
        let ghost c0 = self.cur();
        let c = self.peek();
        let c1 = self.peek_next(1);
        if c == '0' && (c1 == 'x' || c1 == 'b') {
            let base: u32 = if c1 == 'x' {
                16
            } else {
                2
            };
            self.advance();
            self.advance();
            let body = self.current;
            self.advance_radix_run(base);
            proof {
                lemma_radix_run_end(s, c0 + 2, base as int);
            }
            if self.current == body {
                return Err(
                    LexerError {
                        position: self.start,
                        line: self.line,
                        message: String::from_str("invalid integer literal"),
                    },
                );
            }
            match decode_radix(self.source, body, self.current, base) {
                Some(v) => {
                    self.push(tokens, 0, TokenKind::IntLit(v));
                    Ok(())
                },
                None => Err(
                    LexerError {
                        position: self.start,
                        line: self.line,
                        message: String::from_str("invalid integer literal"),
                    },
                ),
            }
        } else {
            let body = self.current;
            self.advance_radix_run(10);
            proof {
                lemma_radix_run_end(s, c0, 10);
            }
            match decode_radix(self.source, body, self.current, 10) {
                Some(v) => {
                    self.push(tokens, 0, TokenKind::IntLit(v));
                    Ok(())
                },
                None => Err(
                    LexerError {
                        position: self.start,
                        line: self.line,
                        message: String::from_str("invalid integer literal"),
                    },
                ),
            }
        }
    }

    /// Scans an identifier or keyword run.
    fn scan_ident(&mut self, tokens: &mut Vec<Token>)
        requires
            0 <= old(self).cur() < old(self).chars().len(),
            old(self).chars().len() < usize::MAX,
            is_ident_char(old(self).chars()[old(self).cur()]),
            old(self).mark() == old(self).cur(),
        ensures
            final(self).chars() == old(self).chars(),
            final(self).mark() == old(self).mark(),
            final(self).line_no() == old(self).line_no(),
            final(self).cur() == ident_run_end(old(self).chars(), old(self).cur()),
            old(self).cur() < final(self).cur() <= old(self).chars().len(),
            toks_view(final(tokens)@) == toks_view(old(tokens)@).push(
                tok(
                    ident_kind(
                        old(self).chars().subrange(
                            old(self).cur(),
                            ident_run_end(old(self).chars(), old(self).cur()),
                        ),
                    ),
                    old(self).cur(),
                    ident_run_end(old(self).chars(), old(self).cur()),
                    old(self).line_no(),
                ),
            ),
    {
        let ghost s = self.chars();
        let ghost c0 = self.cur();
        loop
            invariant
                self.chars() == s,
                s.len() < usize::MAX,
                self.mark() == old(self).mark(),
                self.line_no() == old(self).line_no(),
                c0 <= self.cur() <= s.len(),
                ident_run_end(s, c0) == ident_run_end(s, self.cur()),
            ensures
                self.chars() == s,
                self.mark() == old(self).mark(),
                self.line_no() == old(self).line_no(),
                c0 <= self.cur() <= s.len(),
                ident_run_end(s, c0) == ident_run_end(s, self.cur()),
                !(self.cur() < s.len() && is_ident_char(char_at(s, self.cur()))),
            decreases s.len() - self.cur(),
        {
            if self.at_end() {
                break;
            }
            let c = self.peek();
            if !(('a' <= c && c <= 'z') || ('A' <= c && c <= 'Z') || c == '_') {
                break;
            }
            self.advance();
        }
        proof {
            lemma_ident_run_end(s, self.cur());
            lemma_ident_run_end(s, c0);
        }
        let text = self.source.substring_char(self.start, self.current);
        let kind = match keyword_kind(text) {
            Some(k) => k,
            None => TokenKind::Identifier(String::from_str(text)),
        };
        self.push(tokens, 0, kind);
    }

    /// Scans a string literal: copies characters between the quotes,
    /// substituting the escape pairs `\n`, `\t`, `\r` and `\\`.
    /// Reaching the end of input before the closing quote is an error.
    fn scan_string(&mut self, tokens: &mut Vec<Token>) -> (r: Result<(), LexerError>)
        requires
            0 <= old(self).cur() < old(self).chars().len(),
            old(self).chars().len() < usize::MAX,
            old(self).chars()[old(self).cur()] == '"',
            old(self).mark() == old(self).cur(),
        ensures
            final(self).chars() == old(self).chars(),
            final(self).mark() == old(self).mark(),
            final(self).line_no() == old(self).line_no(),
            old(self).cur() <= final(self).cur() <= old(self).chars().len(),
            match r {
                Ok(_) => string_body(old(self).chars(), old(self).cur() + 1) matches Some(pair)
                    && toks_view(final(tokens)@) == toks_view(old(tokens)@).push(
                    tok(
                        LexKind::StringLit(pair.0),
                        old(self).cur(),
                        pair.1 + 1,
                        old(self).line_no(),
                    ),
                ) && final(self).cur() == pair.1 + 1,
                Err(e) => string_body(old(self).chars(), old(self).cur() + 1) is None && e@
                    == lex_err(
                    old(self).cur(),
                    old(self).line_no(),
                    "unexpected end of string"@,
                ) && final(tokens)@ == old(tokens)@,
            },
    {
        let ghost s = self.chars();
        let ghost c0 = self.cur();
        self.advance();
        let mut lexed = String::new();
        loop
            invariant
                self.chars() == s,
                s == old(self).chars(),
                c0 == old(self).cur(),
                0 <= c0 < s.len(),
                s.len() < usize::MAX,
                self.mark() == old(self).mark(),
                old(self).mark() == c0,
                self.line_no() == old(self).line_no(),
                c0 + 1 <= self.cur() <= s.len(),
                string_body(s, c0 + 1) == sb_prepend(lexed@, string_body(s, self.cur())),
            ensures
                self.chars() == s,
                self.mark() == old(self).mark(),
                self.line_no() == old(self).line_no(),
                c0 + 1 <= self.cur() < s.len(),
                string_body(s, c0 + 1) == sb_prepend(lexed@, string_body(s, self.cur())),
                char_at(s, self.cur()) == '"',
            decreases s.len() - self.cur(),
        {
            if self.at_end() {
                proof {
                    assert(string_body(s, self.cur()) is None);
                }
                return Err(
                    LexerError {
                        position: self.start,
                        line: self.line,
                        message: String::from_str("unexpected end of string"),
                    },
                );
            }
            let c = self.peek();
            if c == '"' {
                break;
            }
            let c1 = self.peek_next(1);
            let esc: Option<char> = if c1 == 'n' {
                Some('\n')
            } else if c1 == 't' {
                Some('\t')
            } else if c1 == 'r' {
                Some('\r')
            } else if c1 == '\\' {
                Some('\\')
            } else {
                None
            };
            let ghost cur0 = self.cur();
            let ghost lexed0 = lexed@;
            if c == '\\' && esc.is_some() {
                let e = esc.unwrap();
                push_char(&mut lexed, e);
                self.advance();
                self.advance();
                proof {
                    assert(escape_char(char_at(s, cur0 + 1)) == Some(e));
                    match string_body(s, cur0 + 2) {
                        Some(pair) => {
                            assert(lexed0.push(e) + pair.0 =~= lexed0 + (seq![e] + pair.0));
                        },
                        None => {},
                    }
                }
            } else {
                push_char(&mut lexed, c);
                self.advance();
                proof {
                    if c == '\\' {
                        assert(escape_char(char_at(s, cur0 + 1)) is None);
                    }
                    match string_body(s, cur0 + 1) {
                        Some(pair) => {
                            assert(lexed0.push(c) + pair.0 =~= lexed0 + (seq![c] + pair.0));
                        },
                        None => {},
                    }
                }
            }
        }
        proof {
            assert(string_body(s, self.cur()) == Some((Seq::<char>::empty(), self.cur())));
            assert(lexed@ + Seq::<char>::empty() =~= lexed@);
        }
        self.push(tokens, 1, TokenKind::StringLit(lexed));
        Ok(())
    }

    /// Skips a comment: everything up to and including the next
    /// newline (or to the end of input), counting the line.
    fn skip_comment(&mut self)
        requires
            0 <= old(self).cur() < old(self).chars().len(),
            old(self).chars().len() < usize::MAX,
            old(self).chars()[old(self).cur()] != '\n',
            old(self).line_no() <= old(self).cur() + 1,
        ensures
            final(self).chars() == old(self).chars(),
            final(self).mark() == old(self).mark(),
            final(self).line_no() == old(self).line_no() + 1,
            final(self).cur() == (if comment_run_end(old(self).chars(), old(self).cur())
                < old(self).chars().len() {
                comment_run_end(old(self).chars(), old(self).cur()) + 1
            } else {
                comment_run_end(old(self).chars(), old(self).cur())
            }),
            old(self).cur() < final(self).cur() <= old(self).chars().len(),
    {
        let ghost s = self.chars();
        let ghost c0 = self.cur();
        loop
            invariant
                self.chars() == s,
                s.len() < usize::MAX,
                self.mark() == old(self).mark(),
                self.line_no() == old(self).line_no(),
                c0 <= self.cur() <= s.len(),
                comment_run_end(s, c0) == comment_run_end(s, self.cur()),
            ensures
                self.chars() == s,
                self.mark() == old(self).mark(),
                self.line_no() == old(self).line_no(),
                c0 <= self.cur() <= s.len(),
                comment_run_end(s, c0) == comment_run_end(s, self.cur()),
                !(self.cur() < s.len() && char_at(s, self.cur()) != '\n'),
            decreases s.len() - self.cur(),
        {
            if self.at_end() {
                break;
            }
            let c = self.peek();
            if c == '\n' {
                break;
            }
            self.advance();
        }
        proof {
            lemma_comment_run_end(s, c0);
        }
        if !self.at_end() {
            self.advance();
        }
        self.line += 1;
    }

    /// Scans the whole source in one pass: every token it holds, in
    /// order, ending with the end-of-stream token — exactly as
    /// `spec_scan` gives them — or the first diagnostic.
    pub fn scan(&mut self) -> (r: Result<Vec<Token>, LexerError>)
        requires
            old(self).cur() == 0,
            old(self).line_no() == 1,
            old(self).chars().len() < usize::MAX,
        ensures
            final(self).chars() == old(self).chars(),
            match r {
                Ok(v) => spec_scan(old(self).chars()) == Ok::<_, LexerErrorView>(toks_view(v@)),
                Err(e) => spec_scan(old(self).chars()) == Err::<Seq<TokenView>, _>(e@),
            },
    {
        let ghost s = self.chars();
        let mut tokens: Vec<Token> = Vec::new();
        proof {
            assert(toks_view(tokens@) =~= Seq::<TokenView>::empty());
            match spec_scan_from(s, 0, 1) {
                Ok(ts) => {
                    assert(Seq::<TokenView>::empty() + ts =~= ts);
                },
                Err(_) => {},
            }
        }
        loop
            invariant
                self.chars() == s,
                s == old(self).chars(),
                s.len() < usize::MAX,
                0 <= self.cur() <= s.len(),
                1 <= self.line_no() <= self.cur() + 1,
                spec_scan(s) == scan_prepend(
                    toks_view(tokens@),
                    spec_scan_from(s, self.cur(), self.line_no()),
                ),
            ensures
                self.chars() == s,
                self.cur() == s.len(),
                1 <= self.line_no() <= self.cur() + 1,
                spec_scan(s) == scan_prepend(
                    toks_view(tokens@),
                    spec_scan_from(s, self.cur(), self.line_no()),
                ),
            decreases s.len() - self.cur(),
        {
            if self.at_end() {
                break;
            }
            self.start = self.current;
            let ghost cur0 = self.cur();
            let ghost line0 = self.line_no();
            let ghost toks0 = toks_view(tokens@);
            let c = self.peek();
            let c1 = self.peek_next(1);
            if c == '(' {
                self.push(&mut tokens, 1, TokenKind::LParen);
                proof {
                    lemma_scan_prepend_token(
                        toks0,
                        tok(LexKind::LParen, cur0, cur0 + 1, line0),
                        spec_scan_from(s, cur0 + 1, line0),
                    );
                }
            } else if c == ')' {
                self.push(&mut tokens, 1, TokenKind::RParen);
                proof {
                    lemma_scan_prepend_token(
                        toks0,
                        tok(LexKind::RParen, cur0, cur0 + 1, line0),
                        spec_scan_from(s, cur0 + 1, line0),
                    );
                }
            } else if c == '{' {
                self.push(&mut tokens, 1, TokenKind::LBrace);
                proof {
                    lemma_scan_prepend_token(
                        toks0,
                        tok(LexKind::LBrace, cur0, cur0 + 1, line0),
                        spec_scan_from(s, cur0 + 1, line0),
                    );
                }
            } else if c == '}' {
                self.push(&mut tokens, 1, TokenKind::RBrace);
                proof {
                    lemma_scan_prepend_token(
                        toks0,
                        tok(LexKind::RBrace, cur0, cur0 + 1, line0),
                        spec_scan_from(s, cur0 + 1, line0),
                    );
                }
            } else if c == ',' {
                self.push(&mut tokens, 1, TokenKind::Comma);
                proof {
                    lemma_scan_prepend_token(
                        toks0,
                        tok(LexKind::Comma, cur0, cur0 + 1, line0),
                        spec_scan_from(s, cur0 + 1, line0),
                    );
                }
            } else if c == '.' {
                self.push(&mut tokens, 1, TokenKind::Dot);
                proof {
                    lemma_scan_prepend_token(
                        toks0,
                        tok(LexKind::Dot, cur0, cur0 + 1, line0),
                        spec_scan_from(s, cur0 + 1, line0),
                    );
                }
            } else if c == '+' && c1 == '=' {
                self.push(&mut tokens, 2, TokenKind::PlusEqual);
                proof {
                    lemma_scan_prepend_token(
                        toks0,
                        tok(LexKind::PlusEqual, cur0, cur0 + 2, line0),
                        spec_scan_from(s, cur0 + 2, line0),
                    );
                }
            } else if c == '+' {
                self.push(&mut tokens, 1, TokenKind::Plus);
                proof {
                    lemma_scan_prepend_token(
                        toks0,
                        tok(LexKind::Plus, cur0, cur0 + 1, line0),
                        spec_scan_from(s, cur0 + 1, line0),
                    );
                }
            } else if c == '-' && c1 == '=' {
                self.push(&mut tokens, 2, TokenKind::MinusEqual);
                proof {
                    lemma_scan_prepend_token(
                        toks0,
                        tok(LexKind::MinusEqual, cur0, cur0 + 2, line0),
                        spec_scan_from(s, cur0 + 2, line0),
                    );
                }
            } else if c == '-' {
                self.push(&mut tokens, 1, TokenKind::Minus);
                proof {
                    lemma_scan_prepend_token(
                        toks0,
                        tok(LexKind::Minus, cur0, cur0 + 1, line0),
                        spec_scan_from(s, cur0 + 1, line0),
                    );
                }
            } else if c == '*' {
                self.push(&mut tokens, 1, TokenKind::Star);
                proof {
                    lemma_scan_prepend_token(
                        toks0,
                        tok(LexKind::Star, cur0, cur0 + 1, line0),
                        spec_scan_from(s, cur0 + 1, line0),
                    );
                }
            } else if c == '/' {
                self.push(&mut tokens, 1, TokenKind::Slash);
                proof {
                    lemma_scan_prepend_token(
                        toks0,
                        tok(LexKind::Slash, cur0, cur0 + 1, line0),
                        spec_scan_from(s, cur0 + 1, line0),
                    );
                }
            } else if c == ':' {
                self.push(&mut tokens, 1, TokenKind::Colon);
                proof {
                    lemma_scan_prepend_token(
                        toks0,
                        tok(LexKind::Colon, cur0, cur0 + 1, line0),
                        spec_scan_from(s, cur0 + 1, line0),
                    );
                }
            } else if c == '!' && c1 == '=' {
                self.push(&mut tokens, 2, TokenKind::BangEqual);
                proof {
                    lemma_scan_prepend_token(
                        toks0,
                        tok(LexKind::BangEqual, cur0, cur0 + 2, line0),
                        spec_scan_from(s, cur0 + 2, line0),
                    );
                }
            } else if c == '=' && c1 == '=' {
                self.push(&mut tokens, 2, TokenKind::EqualEqual);
                proof {
                    lemma_scan_prepend_token(
                        toks0,
                        tok(LexKind::EqualEqual, cur0, cur0 + 2, line0),
                        spec_scan_from(s, cur0 + 2, line0),
                    );
                }
            } else if c == '<' && c1 == '=' {
                self.push(&mut tokens, 2, TokenKind::LessEqual);
                proof {
                    lemma_scan_prepend_token(
                        toks0,
                        tok(LexKind::LessEqual, cur0, cur0 + 2, line0),
                        spec_scan_from(s, cur0 + 2, line0),
                    );
                }
            } else if c == '>' && c1 == '=' {
                self.push(&mut tokens, 2, TokenKind::GreaterEqual);
                proof {
                    lemma_scan_prepend_token(
                        toks0,
                        tok(LexKind::GreaterEqual, cur0, cur0 + 2, line0),
                        spec_scan_from(s, cur0 + 2, line0),
                    );
                }
            } else if c == '=' {
                self.push(&mut tokens, 1, TokenKind::Equal);
                proof {
                    lemma_scan_prepend_token(
                        toks0,
                        tok(LexKind::Equal, cur0, cur0 + 1, line0),
                        spec_scan_from(s, cur0 + 1, line0),
                    );
                }
            } else if c == '<' {
                self.push(&mut tokens, 1, TokenKind::Less);
                proof {
                    lemma_scan_prepend_token(
                        toks0,
                        tok(LexKind::Less, cur0, cur0 + 1, line0),
                        spec_scan_from(s, cur0 + 1, line0),
                    );
                }
            } else if c == '>' {
                self.push(&mut tokens, 1, TokenKind::Greater);
                proof {
                    lemma_scan_prepend_token(
                        toks0,
                        tok(LexKind::Greater, cur0, cur0 + 1, line0),
                        spec_scan_from(s, cur0 + 1, line0),
                    );
                }
            } else if c == '"' {
                match self.scan_string(&mut tokens) {
                    Ok(_) => {
                        proof {
                            match string_body(s, cur0 + 1) {
                                Some(pair) => {
                                    lemma_scan_prepend_token(
                                        toks0,
                                        tok(LexKind::StringLit(pair.0), cur0, pair.1 + 1, line0),
                                        spec_scan_from(s, pair.1 + 1, line0),
                                    );
                                    lemma_string_body_bounds(s, cur0 + 1);
                                },
                                None => {
                                    assert(false);
                                },
                            }
                        }
                    },
                    Err(e) => {
                        return Err(e);
                    },
                }
            } else if c == ' ' || c == '\t' || c == '\r' || c == '\u{b}' || c == '\u{c}' {
                self.advance();
            } else if '0' <= c && c <= '9' {
                match self.scan_int(&mut tokens) {
                    Ok(_) => {
                        proof {
                            match int_token_result(s, cur0, line0) {
                                Ok(p) => {
                                    lemma_scan_prepend_token(
                                        toks0,
                                        p.0,
                                        spec_scan_from(s, p.1, line0),
                                    );
                                },
                                Err(_) => {
                                    assert(false);
                                },
                            }
                        }
                    },
                    Err(e) => {
                        return Err(e);
                    },
                }
            } else if ('a' <= c && c <= 'z') || ('A' <= c && c <= 'Z') || c == '_' {
                self.scan_ident(&mut tokens);
                proof {
                    let e = ident_run_end(s, cur0);
                    lemma_scan_prepend_token(
                        toks0,
                        tok(ident_kind(s.subrange(cur0, e)), cur0, e, line0),
                        spec_scan_from(s, e, line0),
                    );
                }
            } else if c == '#' {
                self.skip_comment();
            } else if c == '\n' {
                self.push(&mut tokens, 1, TokenKind::NewLine);
                self.line += 1;
                proof {
                    lemma_scan_prepend_token(
                        toks0,
                        tok(LexKind::NewLine, cur0, cur0 + 1, line0),
                        spec_scan_from(s, cur0 + 1, line0 + 1),
                    );
                }
            } else if c == '\\' && c1 == '\n' {
                self.advance();
                self.advance();
                self.line += 1;
            } else {
                self.advance();
            }
        }
        self.start = self.current;
        let ghost to_ks = toks_view(tokens@);
        let ghost line_end = self.line_no();
        self.push(&mut tokens, 0, TokenKind::Eof);
        proof {
            let eof_tok = tok(LexKind::Eof, s.len() as int, s.len() as int, line_end);
            assert(spec_scan_from(s, s.len() as int, line_end) == Ok::<_, LexerErrorView>(seq![eof_tok]));
            assert(to_ks.push(eof_tok) =~= to_ks + seq![eof_tok]);
        }
        Ok(tokens)
    }
}

} // verus!
