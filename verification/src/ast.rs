//! Abstract syntax tree produced by the parser: expression trees,
//! identifier names, statements, and the primitive type tags that a
//! declaration can carry.

use vstd::prelude::*;

use crate::token::{Token, TokenView};

verus! {

/// Spec-level model of an expression tree.
pub enum ExprView {
    IntLit(int),
    StringLit(Seq<char>),
    UnaryOp(TokenView, Box<ExprView>),
    BinOp(Box<ExprView>, TokenView, Box<ExprView>),
}

/// An expression tree node. Each node exclusively owns its children.
#[derive(Debug, PartialEq)]
pub enum Expr {
    /// Integer literal, already decoded to a 32-bit signed value.
    IntLit(i32),
    /// String literal, escape sequences already resolved.
    StringLit(String),
    /// Unary operator applied to an operand, e.g. `-1`.
    UnaryOp(Token, Box<Expr>),
    /// Binary operator between two operands, e.g. `2 + 4`.
    BinOp(Box<Expr>, Token, Box<Expr>),
}

impl View for Expr {
    type V = ExprView;

    open spec fn view(&self) -> ExprView
        decreases self,
    {
        match self {
            Expr::IntLit(n) => ExprView::IntLit(*n as int),
            Expr::StringLit(s) => ExprView::StringLit(s@),
            Expr::UnaryOp(op, rhs) => ExprView::UnaryOp(op@, Box::new((**rhs)@)),
            Expr::BinOp(lhs, op, rhs) => ExprView::BinOp(
                Box::new((**lhs)@),
                op@,
                Box::new((**rhs)@),
            ),
        }
    }
}

/// An identifier's name; equality is equality of the text.
#[derive(Debug, PartialEq)]
pub struct Name {
    pub value: String,
}

impl View for Name {
    type V = Seq<char>;

    open spec fn view(&self) -> Seq<char> {
        self.value@
    }
}

/// The primitive type tags a declaration can be annotated with.
/// `Bool` is reserved: the lexer and parser do not produce it yet.
#[derive(Debug, PartialEq, Eq, Structural, Clone, Copy)]
pub enum Type {
    Int,
    String,
    Bool,
}

/// Spec-level model of a statement.
pub enum StmtView {
    Expr(ExprView),
    VarDeclaration(Seq<char>, Type, ExprView),
    Assignment(Seq<char>, ExprView),
}

/// A top-level statement.
#[derive(Debug, PartialEq)]
pub enum Stmt {
    /// A bare expression statement.
    Expr(Expr),
    /// A variable declaration: name, declared type, initializer.
    VarDeclaration(Name, Type, Expr),
    /// An assignment: target name and right-hand expression.
    Assignment(Name, Expr),
}

impl View for Stmt {
    type V = StmtView;

    open spec fn view(&self) -> StmtView {
        match self {
            Stmt::Expr(e) => StmtView::Expr(e@),
            Stmt::VarDeclaration(n, t, e) => StmtView::VarDeclaration(n@, *t, e@),
            Stmt::Assignment(n, e) => StmtView::Assignment(n@, e@),
        }
    }
}

/// Walks the AST; implement it to fold each node into a `T`.
pub trait Visitor<T> {
    fn visit_expr(&mut self, expr: &Expr) -> T;

    fn visit_stmt(&mut self, stmt: &Stmt) -> T;

    fn visit_name(&mut self, name: &Name) -> T;
}

} // verus!
