//! The parser: recursive descent over the token sequence, with one
//! precedence level per routine, producing statement and expression
//! trees or the first diagnostic.
//!
//! The spec model is a family of recursive functions over the token
//! models (`Seq<TokenView>`): for each grammar rule, the exact tree and
//! the position after it, or the exact diagnostic. Each `Parser`
//! method is proved to return precisely what its rule's model gives.

use vstd::prelude::*;

use crate::ast::{Expr, ExprView, Name, Stmt, StmtView, Type};
use crate::errors::{ParseError, ParseErrorView};
use crate::token::{kind_eq, toks_view, LexKind, Token, TokenKind, TokenView};

verus! {

/// The token at `p`, unspecified out of range.
pub open spec fn tv_at(ts: Seq<TokenView>, p: int) -> TokenView {
    if 0 <= p && p < ts.len() {
        ts[p]
    } else {
        arbitrary()
    }
}

/// A well-formed token sequence: nonempty and terminated by the
/// end-of-stream token, as the lexer always leaves it.
pub open spec fn wf_tokens(ts: Seq<TokenView>) -> bool {
    ts.len() >= 1 && ts.last().kind == LexKind::Eof
}

/// The cursor after consuming the token at `p`: one step forward,
/// except at end-of-stream, where the cursor does not move.
pub open spec fn spec_advance(ts: Seq<TokenView>, p: int) -> int {
    if tv_at(ts, p).kind is Eof {
        p
    } else {
        p + 1
    }
}

/// The token `advance` hands back: the one consumed, or the previous
/// one when the cursor sat at end-of-stream and did not move.
pub open spec fn spec_advanced_token(ts: Seq<TokenView>, p: int) -> TokenView {
    if tv_at(ts, p).kind is Eof {
        tv_at(ts, p - 1)
    } else {
        tv_at(ts, p)
    }
}

/// The diagnostic for a failure at cursor position `p`.
pub open spec fn perr(ts: Seq<TokenView>, p: int, message: Seq<char>) -> ParseErrorView {
    ParseErrorView { position: p, curr_token: tv_at(ts, p), message }
}

// ---------------------------------------------------------------------
// Expression grammar, lowest to highest precedence:
//   expression  := equality
//   equality    := comparison (("!=" | "==") comparison)*
//   comparison  := term ((">" | ">=" | "<" | "<=") term)*
//   term        := factor (("+" | "-") factor)*
//   factor      := unary (("*" | "/") unary)*
//   unary       := ("!" | "-") factor | primary
//   primary     := INT_LITERAL | STRING_LITERAL
//
// Each spec function gives the parsed tree and the position after it,
// or the first diagnostic. On a well-formed token sequence a parse
// always stays inside the sequence and moves strictly forward; the
// bound tests on positions below restate that where the recursion
// needs it.
// ---------------------------------------------------------------------
/// One literal: an integer or a string.
pub open spec fn spec_parse_primary(ts: Seq<TokenView>, pos: int) -> Result<
    (ExprView, int),
    ParseErrorView,
> {
    match tv_at(ts, pos).kind {
        LexKind::IntLit(n) => Ok((ExprView::IntLit(n), spec_advance(ts, pos))),
        LexKind::StringLit(s) => Ok((ExprView::StringLit(s), spec_advance(ts, pos))),
        _ => Err(perr(ts, pos, "invalid expression"@)),
    }
}

/// A unary chain: `!` or `-` applied to a factor-level operand, or a
/// primary.
pub open spec fn spec_parse_unary(ts: Seq<TokenView>, pos: int) -> Result<
    (ExprView, int),
    ParseErrorView,
>
    decreases ts.len() - pos, 0int,
{
    let k = tv_at(ts, pos).kind;
    if (k is Bang || k is Minus) && 0 <= pos && pos + 1 < ts.len() {
        match spec_parse_factor(ts, pos + 1) {
            Ok((rhs, p)) => Ok((ExprView::UnaryOp(tv_at(ts, pos), Box::new(rhs)), p)),
            Err(e) => Err(e),
        }
    } else {
        spec_parse_primary(ts, pos)
    }
}

/// A factor: a unary followed by any number of `*` or `/` operands,
/// folded to the left.
pub open spec fn spec_parse_factor(ts: Seq<TokenView>, pos: int) -> Result<
    (ExprView, int),
    ParseErrorView,
>
    decreases ts.len() - pos, 2int,
{
    match spec_parse_unary(ts, pos) {
        Ok((lhs, p)) => if pos < p <= ts.len() {
            spec_parse_factor_rest(ts, p, lhs)
        } else {
            Ok((lhs, p))
        },
        Err(e) => Err(e),
    }
}

/// Folds `*` and `/` operands onto an already-parsed left factor.
pub open spec fn spec_parse_factor_rest(ts: Seq<TokenView>, pos: int, acc: ExprView) -> Result<
    (ExprView, int),
    ParseErrorView,
>
    decreases ts.len() - pos, 1int,
{
    let k = tv_at(ts, pos).kind;
    if (k is Star || k is Slash) && 0 <= pos && pos + 1 < ts.len() {
        match spec_parse_unary(ts, pos + 1) {
            Ok((rhs, p2)) => {
                let folded = ExprView::BinOp(Box::new(acc), tv_at(ts, pos), Box::new(rhs));
                if pos + 1 < p2 <= ts.len() {
                    spec_parse_factor_rest(ts, p2, folded)
                } else {
                    Ok((folded, p2))
                }
            },
            Err(e) => Err(e),
        }
    } else {
        Ok((acc, pos))
    }
}

/// A term: a factor followed by any number of `+` or `-` operands,
/// folded to the left.
pub open spec fn spec_parse_term(ts: Seq<TokenView>, pos: int) -> Result<
    (ExprView, int),
    ParseErrorView,
>
    decreases ts.len() - pos, 1int,
{
    match spec_parse_factor(ts, pos) {
        Ok((lhs, p)) => if pos < p <= ts.len() {
            spec_parse_term_rest(ts, p, lhs)
        } else {
            Ok((lhs, p))
        },
        Err(e) => Err(e),
    }
}

/// Folds `+` and `-` operands onto an already-parsed left term.
pub open spec fn spec_parse_term_rest(ts: Seq<TokenView>, pos: int, acc: ExprView) -> Result<
    (ExprView, int),
    ParseErrorView,
>
    decreases ts.len() - pos, 0int,
{
    let k = tv_at(ts, pos).kind;
    if (k is Plus || k is Minus) && 0 <= pos && pos + 1 < ts.len() {
        match spec_parse_factor(ts, pos + 1) {
            Ok((rhs, p2)) => {
                let folded = ExprView::BinOp(Box::new(acc), tv_at(ts, pos), Box::new(rhs));
                if pos + 1 < p2 <= ts.len() {
                    spec_parse_term_rest(ts, p2, folded)
                } else {
                    Ok((folded, p2))
                }
            },
            Err(e) => Err(e),
        }
    } else {
        Ok((acc, pos))
    }
}

/// A comparison: a term followed by any number of `>`, `>=`, `<` or
/// `<=` operands, folded to the left.
pub open spec fn spec_parse_comparison(ts: Seq<TokenView>, pos: int) -> Result<
    (ExprView, int),
    ParseErrorView,
>
    decreases ts.len() - pos, 1int,
{
    match spec_parse_term(ts, pos) {
        Ok((lhs, p)) => if pos < p <= ts.len() {
            spec_parse_comparison_rest(ts, p, lhs)
        } else {
            Ok((lhs, p))
        },
        Err(e) => Err(e),
    }
}

/// Folds comparison operands onto an already-parsed left side.
pub open spec fn spec_parse_comparison_rest(ts: Seq<TokenView>, pos: int, acc: ExprView) -> Result<
    (ExprView, int),
    ParseErrorView,
>
    decreases ts.len() - pos, 0int,
{
    let k = tv_at(ts, pos).kind;
    if (k is Greater || k is GreaterEqual || k is Less || k is LessEqual) && 0 <= pos && pos + 1
        < ts.len() {
        match spec_parse_term(ts, pos + 1) {
            Ok((rhs, p2)) => {
                let folded = ExprView::BinOp(Box::new(acc), tv_at(ts, pos), Box::new(rhs));
                if pos + 1 < p2 <= ts.len() {
                    spec_parse_comparison_rest(ts, p2, folded)
                } else {
                    Ok((folded, p2))
                }
            },
            Err(e) => Err(e),
        }
    } else {
        Ok((acc, pos))
    }
}

/// An equality: a comparison followed by any number of `!=` or `==`
/// operands, folded to the left.
pub open spec fn spec_parse_equality(ts: Seq<TokenView>, pos: int) -> Result<
    (ExprView, int),
    ParseErrorView,
>
    decreases ts.len() - pos, 1int,
{
    match spec_parse_comparison(ts, pos) {
        Ok((lhs, p)) => if pos < p <= ts.len() {
            spec_parse_equality_rest(ts, p, lhs)
        } else {
            Ok((lhs, p))
        },
        Err(e) => Err(e),
    }
}

/// Folds `!=` and `==` operands onto an already-parsed left side.
pub open spec fn spec_parse_equality_rest(ts: Seq<TokenView>, pos: int, acc: ExprView) -> Result<
    (ExprView, int),
    ParseErrorView,
>
    decreases ts.len() - pos, 0int,
{
    let k = tv_at(ts, pos).kind;
    if (k is BangEqual || k is EqualEqual) && 0 <= pos && pos + 1 < ts.len() {
        match spec_parse_comparison(ts, pos + 1) {
            Ok((rhs, p2)) => {
                let folded = ExprView::BinOp(Box::new(acc), tv_at(ts, pos), Box::new(rhs));
                if pos + 1 < p2 <= ts.len() {
                    spec_parse_equality_rest(ts, p2, folded)
                } else {
                    Ok((folded, p2))
                }
            },
            Err(e) => Err(e),
        }
    } else {
        Ok((acc, pos))
    }
}

/// A whole expression: an equality.
pub open spec fn spec_parse_expr(ts: Seq<TokenView>, pos: int) -> Result<
    (ExprView, int),
    ParseErrorView,
> {
    spec_parse_equality(ts, pos)
}

// ---------------------------------------------------------------------
// Statement grammar:
//   statement        := var_declaration
//   var_declaration  := "var" IDENTIFIER ":" ("int" | "str") "=" expression
// ---------------------------------------------------------------------
/// A variable declaration, from just after its `var` keyword (so
/// `pos >= 1`): the identifier slot is consumed whatever it holds (a
/// missing identifier leaves the name empty), the colon and a
/// recognized type tag are required, and so is an initializer.
pub open spec fn spec_parse_var(ts: Seq<TokenView>, pos: int) -> Result<
    (StmtView, int),
    ParseErrorView,
> {
    let t0 = spec_advanced_token(ts, pos);
    let p1 = spec_advance(ts, pos);
    let name = match t0.kind {
        LexKind::Identifier(s) => s,
        _ => Seq::<char>::empty(),
    };
    if tv_at(ts, p1).kind is Colon {
        let p2 = p1 + 1;
        let k2 = tv_at(ts, p2).kind;
        if k2 is IntType || k2 is StrType {
            let ty = if k2 is IntType {
                Type::Int
            } else {
                Type::String
            };
            let p3 = spec_advance(ts, p2);
            if tv_at(ts, p3).kind is Equal {
                match spec_parse_expr(ts, p3 + 1) {
                    Ok((e, p4)) => Ok((StmtView::VarDeclaration(name, ty, e), p4)),
                    Err(err) => Err(err),
                }
            } else {
                Err(perr(ts, p3, "expected value"@))
            }
        } else {
            Err(perr(ts, p2, "invalid type"@))
        }
    } else {
        Err(perr(ts, p1, "expected a colon"@))
    }
}

/// One statement: only a variable declaration can start one; any
/// other leading token is rejected.
pub open spec fn spec_parse_stmt(ts: Seq<TokenView>, pos: int) -> Result<
    (StmtView, int),
    ParseErrorView,
> {
    if tv_at(ts, pos).kind is Var {
        spec_parse_var(ts, spec_advance(ts, pos))
    } else {
        Err(perr(ts, pos, "invalid statement type"@))
    }
}

/// The whole program: statements parsed one after the other until the
/// cursor stands at end-of-stream. At least one statement is always
/// attempted; the first failure is the result.
pub open spec fn spec_parse(ts: Seq<TokenView>, pos: int) -> Result<Seq<StmtView>, ParseErrorView>
    decreases ts.len() - pos,
{
    match spec_parse_stmt(ts, pos) {
        Ok((st, p)) => if tv_at(ts, p).kind is Eof {
            Ok(seq![st])
        } else if pos < p <= ts.len() {
            match spec_parse(ts, p) {
                Ok(rest) => Ok(seq![st] + rest),
                Err(e) => Err(e),
            }
        } else {
            Ok(seq![st])
        },
        Err(e) => Err(e),
    }
}

// ---------------------------------------------------------------------
// Executable parser
// ---------------------------------------------------------------------
/// The models of a sequence of statements.
pub open spec fn stmts_view(v: Seq<Stmt>) -> Seq<StmtView> {
    v.map_values(|st: Stmt| st@)
}

/// Prepends one statement to a program parse result, keeping an error
/// as it is.
pub open spec fn with_stmt(st: StmtView, r: Result<Seq<StmtView>, ParseErrorView>) -> Result<
    Seq<StmtView>,
    ParseErrorView,
> {
    match r {
        Ok(rest) => Ok(seq![st] + rest),
        Err(e) => Err(e),
    }
}

/// Prepends already-parsed statements to the result for the rest of
/// the tokens, keeping an error as it is.
pub open spec fn parse_prepend(
    p: Seq<StmtView>,
    r: Result<Seq<StmtView>, ParseErrorView>,
) -> Result<Seq<StmtView>, ParseErrorView> {
    match r {
        Ok(rest) => Ok(p + rest),
        Err(e) => Err(e),
    }
}

proof fn lemma_parse_prepend_stmt(
    p: Seq<StmtView>,
    st: StmtView,
    r: Result<Seq<StmtView>, ParseErrorView>,
)
    ensures
        parse_prepend(p.push(st), r) == parse_prepend(p, with_stmt(st, r)),
{
    match r {
        Ok(rest) => {
            assert(p.push(st) + rest =~= p + (seq![st] + rest));
        },
        Err(_) => {},
    }
}

/// The parser: a cursor over an owned, well-formed token sequence.
pub struct Parser {
    position: usize,
    tokens: Vec<Token>,
}

impl Parser {
    /// The models of the tokens being parsed.
    pub closed spec fn toks(&self) -> Seq<TokenView> {
        toks_view(self.tokens@)
    }

    /// The cursor: the index of the next token to consume.
    pub closed spec fn pos(&self) -> int {
        self.position as int
    }

    /// The parser's invariant: the tokens are well formed and the
    /// cursor stands on a token.
    pub closed spec fn wf(&self) -> bool {
        wf_tokens(self.toks()) && 0 <= self.pos() < self.toks().len() && self.toks().len()
            <= usize::MAX
    }

    /// A parser at the start of the given token sequence, which must
    /// be terminated by the end-of-stream token, as the lexer leaves
    /// it.
    pub fn new(tokens: Vec<Token>) -> (p: Parser)
        requires
            wf_tokens(toks_view(tokens@)),
        ensures
            p.wf(),
            p.toks() == toks_view(tokens@),
            p.pos() == 0,
    {
        let n = tokens.len();
        Parser { position: 0, tokens }
    }

    /// Whether the cursor stands on the end-of-stream token.
    fn at_end(&self) -> (r: bool)
        requires
            self.wf(),
        ensures
            r == (tv_at(self.toks(), self.pos()).kind is Eof),
    {
        kind_eq(&self.tokens[self.position].kind, &TokenKind::Eof)
    }

    /// The last consumed token.
    fn prev(&self) -> (t: Token)
        requires
            self.wf(),
            self.pos() >= 1,
        ensures
            t@ == tv_at(self.toks(), self.pos() - 1),
    {
        self.tokens[self.position - 1].clone()
    }

    /// The token under the cursor, cloned.
    fn peek(&self) -> (t: Token)
        requires
            self.wf(),
        ensures
            t@ == tv_at(self.toks(), self.pos()),
    {
        self.tokens[self.position].clone()
    }

    /// Consumes the current token and returns it; at end-of-stream the
    /// cursor does not move and the previous token comes back.
    fn advance(&mut self) -> (t: Token)
        requires
            old(self).wf(),
            tv_at(old(self).toks(), old(self).pos()).kind is Eof ==> old(self).pos() >= 1,
        ensures
            final(self).wf(),
            final(self).toks() == old(self).toks(),
            final(self).pos() == spec_advance(old(self).toks(), old(self).pos()),
            t@ == spec_advanced_token(old(self).toks(), old(self).pos()),
    {
        if !self.at_end() {
            self.position += 1;
        }
        self.prev()
    }

    /// Consumes the current token only if it has the given kind.
    fn consume(&mut self, kind: &TokenKind) -> (r: Option<Token>)
        requires
            old(self).wf(),
        ensures
            final(self).wf(),
            final(self).toks() == old(self).toks(),
            ({
                let k = tv_at(old(self).toks(), old(self).pos()).kind;
                if !(k is Eof) && k == kind@ {
                    (r matches Some(t) && t@ == tv_at(old(self).toks(), old(self).pos())
                        && final(self).pos() == old(self).pos() + 1)
                } else {
                    r is None && final(self).pos() == old(self).pos()
                }
            }),
    {
        if self.at_end() {
            return None;
        }
        if kind_eq(&self.tokens[self.position].kind, kind) {
            Some(self.advance())
        } else {
            None
        }
    }

    /// One literal: an integer or a string.
    fn parse_primary(&mut self) -> (r: Result<Expr, ParseError>)
        requires
            old(self).wf(),
        ensures
            final(self).wf(),
            final(self).toks() == old(self).toks(),
            old(self).pos() <= final(self).pos() < final(self).toks().len(),
            match r {
                Ok(e) => (spec_parse_primary(old(self).toks(), old(self).pos()) matches Ok(p)
                    && p.0 == e@ && p.1 == final(self).pos()) && old(self).pos() < final(self).pos(),
                Err(pe) => spec_parse_primary(old(self).toks(), old(self).pos()) matches Err(ev)
                    && pe@ == ev && final(self).pos() == old(self).pos(),
            },
    {
        let t = self.peek();
        match &t.kind {
            TokenKind::IntLit(n) => {
                let v: i32 = *n;
                let _ = self.advance();
                Ok(Expr::IntLit(v))
            },
            TokenKind::StringLit(s) => {
                let sv = s.clone();
                let _ = self.advance();
                Ok(Expr::StringLit(sv))
            },
            _ => Err(
                ParseError {
                    position: self.position,
                    curr_token: t,
                    message: String::from_str("invalid expression"),
                },
            ),
        }
    }

    /// A unary chain: `!` or `-` applied to a factor-level operand, or
    /// a primary.
    fn parse_unary(&mut self) -> (r: Result<Expr, ParseError>)
        requires
            old(self).wf(),
        ensures
            final(self).wf(),
            final(self).toks() == old(self).toks(),
            old(self).pos() <= final(self).pos() < final(self).toks().len(),
            match r {
                Ok(e) => (spec_parse_unary(old(self).toks(), old(self).pos()) matches Ok(p) && p.0
                    == e@ && p.1 == final(self).pos()) && old(self).pos() < final(self).pos()
                    <= old(self).toks().len(),
                Err(pe) => spec_parse_unary(old(self).toks(), old(self).pos()) matches Err(ev)
                    && pe@ == ev,
            },
        decreases self.toks().len() - self.pos(), 1int,
    {
        let op_opt = if let Some(t) = self.consume(&TokenKind::Bang) {
            Some(t)
        } else {
            self.consume(&TokenKind::Minus)
        };
        if let Some(op) = op_opt {
            let rhs = match self.parse_factor() {
                Ok(e) => e,
                Err(pe) => {
                    return Err(pe);
                },
            };
            return Ok(Expr::UnaryOp(op, Box::new(rhs)));
        }
        self.parse_primary()
    }

    /// A factor: a unary followed by any number of `*` or `/`
    /// operands, folded to the left.
    fn parse_factor(&mut self) -> (r: Result<Expr, ParseError>)
        requires
            old(self).wf(),
        ensures
            final(self).wf(),
            final(self).toks() == old(self).toks(),
            old(self).pos() <= final(self).pos() < final(self).toks().len(),
            match r {
                Ok(e) => (spec_parse_factor(old(self).toks(), old(self).pos()) matches Ok(p) && p.0
                    == e@ && p.1 == final(self).pos()) && old(self).pos() < final(self).pos()
                    <= old(self).toks().len(),
                Err(pe) => spec_parse_factor(old(self).toks(), old(self).pos()) matches Err(ev)
                    && pe@ == ev,
            },
        decreases self.toks().len() - self.pos(), 2int,
    {
        let ghost ts = self.toks();
        let ghost pos0 = self.pos();
        let mut expr = match self.parse_unary() {
            Ok(e) => e,
            Err(pe) => {
                return Err(pe);
            },
        };
        loop
            invariant
                self.wf(),
                self.toks() == ts,
                ts == old(self).toks(),
                pos0 == old(self).pos(),
                pos0 < self.pos() <= ts.len(),
                spec_parse_factor(ts, pos0) == spec_parse_factor_rest(ts, self.pos(), expr@),
            ensures
                self.wf(),
                self.toks() == ts,
                pos0 < self.pos() <= ts.len(),
                spec_parse_factor(ts, pos0) == Ok::<(ExprView, int), ParseErrorView>(
                    (expr@, self.pos()),
                ),
            decreases ts.len() - self.pos(),
        {
            let op_opt = if let Some(t) = self.consume(&TokenKind::Star) {
                Some(t)
            } else {
                self.consume(&TokenKind::Slash)
            };
            let op = match op_opt {
                Some(t) => t,
                None => {
                    break;
                },
            };
            let rhs = match self.parse_unary() {
                Ok(e) => e,
                Err(pe) => {
                    return Err(pe);
                },
            };
            expr = Expr::BinOp(Box::new(expr), op, Box::new(rhs));
        }
        Ok(expr)
    }

    /// A term: a factor followed by any number of `+` or `-` operands,
    /// folded to the left.
    fn parse_term(&mut self) -> (r: Result<Expr, ParseError>)
        requires
            old(self).wf(),
        ensures
            final(self).wf(),
            final(self).toks() == old(self).toks(),
            old(self).pos() <= final(self).pos() < final(self).toks().len(),
            match r {
                Ok(e) => (spec_parse_term(old(self).toks(), old(self).pos()) matches Ok(p) && p.0
                    == e@ && p.1 == final(self).pos()) && old(self).pos() < final(self).pos()
                    <= old(self).toks().len(),
                Err(pe) => spec_parse_term(old(self).toks(), old(self).pos()) matches Err(ev)
                    && pe@ == ev,
            },
        decreases self.toks().len() - self.pos(), 3int,
    {
        let ghost ts = self.toks();
        let ghost pos0 = self.pos();
        let mut expr = match self.parse_factor() {
            Ok(e) => e,
            Err(pe) => {
                return Err(pe);
            },
        };
        loop
            invariant
                self.wf(),
                self.toks() == ts,
                ts == old(self).toks(),
                pos0 == old(self).pos(),
                pos0 < self.pos() <= ts.len(),
                spec_parse_term(ts, pos0) == spec_parse_term_rest(ts, self.pos(), expr@),
            ensures
                self.wf(),
                self.toks() == ts,
                pos0 < self.pos() <= ts.len(),
                spec_parse_term(ts, pos0) == Ok::<(ExprView, int), ParseErrorView>(
                    (expr@, self.pos()),
                ),
            decreases ts.len() - self.pos(),
        {
            let op_opt = if let Some(t) = self.consume(&TokenKind::Plus) {
                Some(t)
            } else {
                self.consume(&TokenKind::Minus)
            };
            let op = match op_opt {
                Some(t) => t,
                None => {
                    break;
                },
            };
            let rhs = match self.parse_factor() {
                Ok(e) => e,
                Err(pe) => {
                    return Err(pe);
                },
            };
            expr = Expr::BinOp(Box::new(expr), op, Box::new(rhs));
        }
        Ok(expr)
    }

    /// A comparison: a term followed by any number of `>`, `>=`, `<`
    /// or `<=` operands, folded to the left.
    fn parse_comparison(&mut self) -> (r: Result<Expr, ParseError>)
        requires
            old(self).wf(),
        ensures
            final(self).wf(),
            final(self).toks() == old(self).toks(),
            old(self).pos() <= final(self).pos() < final(self).toks().len(),
            match r {
                Ok(e) => (spec_parse_comparison(old(self).toks(), old(self).pos()) matches Ok(p)
                    && p.0 == e@ && p.1 == final(self).pos()) && old(self).pos() < final(self).pos() <= old(self).toks().len(),
                Err(pe) => spec_parse_comparison(old(self).toks(), old(self).pos()) matches Err(ev)
                    && pe@ == ev,
            },
        decreases self.toks().len() - self.pos(), 4int,
    {
        let ghost ts = self.toks();
        let ghost pos0 = self.pos();
        let mut expr = match self.parse_term() {
            Ok(e) => e,
            Err(pe) => {
                return Err(pe);
            },
        };
        loop
            invariant
                self.wf(),
                self.toks() == ts,
                ts == old(self).toks(),
                pos0 == old(self).pos(),
                pos0 < self.pos() <= ts.len(),
                spec_parse_comparison(ts, pos0) == spec_parse_comparison_rest(
                    ts,
                    self.pos(),
                    expr@,
                ),
            ensures
                self.wf(),
                self.toks() == ts,
                pos0 < self.pos() <= ts.len(),
                spec_parse_comparison(ts, pos0) == Ok::<(ExprView, int), ParseErrorView>(
                    (expr@, self.pos()),
                ),
            decreases ts.len() - self.pos(),
        {
            let op_opt = if let Some(t) = self.consume(&TokenKind::Greater) {
                Some(t)
            } else if let Some(t) = self.consume(&TokenKind::GreaterEqual) {
                Some(t)
            } else if let Some(t) = self.consume(&TokenKind::Less) {
                Some(t)
            } else {
                self.consume(&TokenKind::LessEqual)
            };
            let op = match op_opt {
                Some(t) => t,
                None => {
                    break;
                },
            };
            let rhs = match self.parse_term() {
                Ok(e) => e,
                Err(pe) => {
                    return Err(pe);
                },
            };
            expr = Expr::BinOp(Box::new(expr), op, Box::new(rhs));
        }
        Ok(expr)
    }

    /// An equality: a comparison followed by any number of `!=` or
    /// `==` operands, folded to the left.
    fn parse_equality(&mut self) -> (r: Result<Expr, ParseError>)
        requires
            old(self).wf(),
        ensures
            final(self).wf(),
            final(self).toks() == old(self).toks(),
            old(self).pos() <= final(self).pos() < final(self).toks().len(),
            match r {
                Ok(e) => (spec_parse_equality(old(self).toks(), old(self).pos()) matches Ok(p)
                    && p.0 == e@ && p.1 == final(self).pos()) && old(self).pos() < final(self).pos() <= old(self).toks().len(),
                Err(pe) => spec_parse_equality(old(self).toks(), old(self).pos()) matches Err(ev)
                    && pe@ == ev,
            },
        decreases self.toks().len() - self.pos(), 5int,
    {
        let ghost ts = self.toks();
        let ghost pos0 = self.pos();
        let mut expr = match self.parse_comparison() {
            Ok(e) => e,
            Err(pe) => {
                return Err(pe);
            },
        };
        loop
            invariant
                self.wf(),
                self.toks() == ts,
                ts == old(self).toks(),
                pos0 == old(self).pos(),
                pos0 < self.pos() <= ts.len(),
                spec_parse_equality(ts, pos0) == spec_parse_equality_rest(ts, self.pos(), expr@),
            ensures
                self.wf(),
                self.toks() == ts,
                pos0 < self.pos() <= ts.len(),
                spec_parse_equality(ts, pos0) == Ok::<(ExprView, int), ParseErrorView>(
                    (expr@, self.pos()),
                ),
            decreases ts.len() - self.pos(),
        {
            let op_opt = if let Some(t) = self.consume(&TokenKind::BangEqual) {
                Some(t)
            } else {
                self.consume(&TokenKind::EqualEqual)
            };
            let op = match op_opt {
                Some(t) => t,
                None => {
                    break;
                },
            };
            let rhs = match self.parse_comparison() {
                Ok(e) => e,
                Err(pe) => {
                    return Err(pe);
                },
            };
            expr = Expr::BinOp(Box::new(expr), op, Box::new(rhs));
        }
        Ok(expr)
    }

    /// A whole expression: an equality.
    pub fn parse_expr(&mut self) -> (r: Result<Expr, ParseError>)
        requires
            old(self).wf(),
        ensures
            final(self).wf(),
            final(self).toks() == old(self).toks(),
            old(self).pos() <= final(self).pos() < final(self).toks().len(),
            match r {
                Ok(e) => (spec_parse_expr(old(self).toks(), old(self).pos()) matches Ok(p) && p.0
                    == e@ && p.1 == final(self).pos()) && old(self).pos() < final(self).pos()
                    <= old(self).toks().len(),
                Err(pe) => spec_parse_expr(old(self).toks(), old(self).pos()) matches Err(ev)
                    && pe@ == ev,
            },
        decreases self.toks().len() - self.pos(), 6int,
    {
        self.parse_equality()
    }

    /// A variable declaration, entered just after its `var` keyword.
    fn parse_var(&mut self) -> (r: Result<Stmt, ParseError>)
        requires
            old(self).wf(),
            old(self).pos() >= 1,
        ensures
            final(self).wf(),
            final(self).toks() == old(self).toks(),
            old(self).pos() <= final(self).pos() < final(self).toks().len(),
            match r {
                Ok(st) => (spec_parse_var(old(self).toks(), old(self).pos()) matches Ok(p) && p.0
                    == st@ && p.1 == final(self).pos()) && old(self).pos() < final(self).pos(),
                Err(pe) => spec_parse_var(old(self).toks(), old(self).pos()) matches Err(ev)
                    && pe@ == ev,
            },
    {
        let t0 = self.advance();
        let name: String = if let TokenKind::Identifier(s) = t0.kind {
            s
        } else {
            String::new()
        };
        if self.consume(&TokenKind::Colon).is_none() {
            let t = self.peek();
            return Err(
                ParseError {
                    position: self.position,
                    curr_token: t,
                    message: String::from_str("expected a colon"),
                },
            );
        }
        let tt = self.peek();
        let ty: Type = if kind_eq(&tt.kind, &TokenKind::IntType) {
            Type::Int
        } else if kind_eq(&tt.kind, &TokenKind::StrType) {
            Type::String
        } else {
            return Err(
                ParseError {
                    position: self.position,
                    curr_token: tt,
                    message: String::from_str("invalid type"),
                },
            );
        };
        let _ = self.advance();
        if self.consume(&TokenKind::Equal).is_some() {
            let value = match self.parse_expr() {
                Ok(e) => e,
                Err(pe) => {
                    return Err(pe);
                },
            };
            Ok(Stmt::VarDeclaration(Name { value: name }, ty, value))
        } else {
            let t = self.peek();
            Err(
                ParseError {
                    position: self.position,
                    curr_token: t,
                    message: String::from_str("expected value"),
                },
            )
        }
    }

    /// One statement: only a variable declaration can start one; any
    /// other leading token is rejected.
    pub fn parse_stmt(&mut self) -> (r: Result<Stmt, ParseError>)
        requires
            old(self).wf(),
        ensures
            final(self).wf(),
            final(self).toks() == old(self).toks(),
            old(self).pos() <= final(self).pos() < final(self).toks().len(),
            match r {
                Ok(st) => (spec_parse_stmt(old(self).toks(), old(self).pos()) matches Ok(p) && p.0
                    == st@ && p.1 == final(self).pos()) && old(self).pos() < final(self).pos(),
                Err(pe) => spec_parse_stmt(old(self).toks(), old(self).pos()) matches Err(ev)
                    && pe@ == ev && (!(tv_at(old(self).toks(), old(self).pos()).kind is Var)
                    ==> final(self).pos() == old(self).pos()),
            },
    {
        let t = self.peek();
        if kind_eq(&t.kind, &TokenKind::Var) {
            let _ = self.advance();
            return self.parse_var();
        }
        Err(
            ParseError {
                position: self.position,
                curr_token: t,
                message: String::from_str("invalid statement type"),
            },
        )
    }

    /// The whole program: statements parsed one after the other until
    /// the cursor stands at end-of-stream, exactly as `spec_parse`
    /// gives them, or the first diagnostic.
    pub fn parse(&mut self) -> (r: Result<Vec<Stmt>, ParseError>)
        requires
            old(self).wf(),
        ensures
            final(self).wf(),
            final(self).toks() == old(self).toks(),
            old(self).pos() <= final(self).pos() < final(self).toks().len(),
            r is Ok ==> tv_at(final(self).toks(), final(self).pos()).kind is Eof,
            match r {
                Ok(v) => spec_parse(old(self).toks(), old(self).pos()) == Ok::<
                    Seq<StmtView>,
                    ParseErrorView,
                >(stmts_view(v@)),
                Err(e) => spec_parse(old(self).toks(), old(self).pos()) == Err::<
                    Seq<StmtView>,
                    ParseErrorView,
                >(e@),
            },
    {
        let ghost ts = self.toks();
        let ghost pos0 = self.pos();
        let mut stmts: Vec<Stmt> = Vec::new();
        proof {
            assert(stmts_view(stmts@) =~= Seq::<StmtView>::empty());
            match spec_parse(ts, pos0) {
                Ok(rest) => {
                    assert(Seq::<StmtView>::empty() + rest =~= rest);
                },
                Err(_) => {},
            }
        }
        loop
            invariant_except_break
                spec_parse(ts, pos0) == parse_prepend(
                    stmts_view(stmts@),
                    spec_parse(ts, self.pos()),
                ),
            invariant
                self.wf(),
                self.toks() == ts,
                ts == old(self).toks(),
                pos0 == old(self).pos(),
                pos0 <= self.pos(),
            ensures
                self.wf(),
                self.toks() == ts,
                pos0 <= self.pos(),
                tv_at(self.toks(), self.pos()).kind is Eof,
                spec_parse(ts, pos0) == Ok::<Seq<StmtView>, ParseErrorView>(stmts_view(stmts@)),
            decreases ts.len() - self.pos(),
        {
            let ghost p_top = self.pos();
            let ghost st0 = stmts_view(stmts@);
            let st = match self.parse_stmt() {
                Ok(s) => s,
                Err(e) => {
                    return Err(e);
                },
            };
            let ghost stv = st@;
            stmts.push(st);
            proof {
                assert(stmts_view(stmts@) =~= st0.push(stv));
            }
            if self.at_end() {
                proof {
                    assert(st0 + seq![stv] =~= st0.push(stv));
                }
                break;
            }
            proof {
                lemma_parse_prepend_stmt(st0, stv, spec_parse(ts, self.pos()));
            }
        }
        Ok(stmts)
    }
}

} // verus!
