use lune::ast::{Expr, Name, Stmt, Type};
use lune::errors::ParseError;
use lune::lexer::Lexer;
use lune::parser::Parser;
use lune::token::{Token, TokenKind};

fn parser_for(src: &str) -> Parser {
    let mut lx = Lexer::new(src);
    Parser::new(lx.scan().expect("scan should succeed"))
}

fn parse_source(src: &str) -> Result<Vec<Stmt>, ParseError> {
    parser_for(src).parse()
}

fn expr_of(src: &str) -> Expr {
    parser_for(src)
        .parse_expr()
        .expect("expression should parse")
}

fn int_lit(e: &Expr) -> i32 {
    if let Expr::IntLit(n) = e {
        *n
    } else {
        panic!("expected an integer literal, got {:?}", e);
    }
}

#[test]
fn multiplication_binds_tighter_than_addition() {
    // 2 + 3 * 4 must parse as 2 + (3 * 4), never (2 + 3) * 4.
    let e = expr_of("2 + 3 * 4");
    if let Expr::BinOp(lhs, op, rhs) = e {
        assert_eq!(op.kind, TokenKind::Plus);
        assert_eq!(int_lit(&lhs), 2);
        if let Expr::BinOp(rl, rop, rr) = *rhs {
            assert_eq!(rop.kind, TokenKind::Star);
            assert_eq!(int_lit(&rl), 3);
            assert_eq!(int_lit(&rr), 4);
        } else {
            panic!("right operand should be a product");
        }
    } else {
        panic!("expected a binary operation");
    }
}

#[test]
fn subtraction_is_left_associative() {
    // 8 - 3 - 2 must parse as (8 - 3) - 2.
    let e = expr_of("8 - 3 - 2");
    if let Expr::BinOp(lhs, op, rhs) = e {
        assert_eq!(op.kind, TokenKind::Minus);
        assert_eq!(int_lit(&rhs), 2);
        if let Expr::BinOp(ll, lop, lr) = *lhs {
            assert_eq!(lop.kind, TokenKind::Minus);
            assert_eq!(int_lit(&ll), 8);
            assert_eq!(int_lit(&lr), 3);
        } else {
            panic!("left operand should itself be a difference");
        }
    } else {
        panic!("expected a binary operation");
    }
}

#[test]
fn division_is_left_associative() {
    let e = expr_of("8 / 2 / 2");
    if let Expr::BinOp(lhs, op, _) = e {
        assert_eq!(op.kind, TokenKind::Slash);
        assert!(matches!(*lhs, Expr::BinOp(_, _, _)));
    } else {
        panic!("expected a binary operation");
    }
}

#[test]
fn unary_minus_stacks() {
    // --5 must parse as -(-5).
    let e = expr_of("--5");
    if let Expr::UnaryOp(op, inner) = e {
        assert_eq!(op.kind, TokenKind::Minus);
        if let Expr::UnaryOp(iop, innermost) = *inner {
            assert_eq!(iop.kind, TokenKind::Minus);
            assert_eq!(int_lit(&innermost), 5);
        } else {
            panic!("inner operand should be unary as well");
        }
    } else {
        panic!("expected a unary operation");
    }
}

#[test]
fn equality_over_comparisons() {
    // 1 < 2 == 3 >= 4 must parse as (1 < 2) == (3 >= 4).
    let e = expr_of("1 < 2 == 3 >= 4");
    if let Expr::BinOp(lhs, op, rhs) = e {
        assert_eq!(op.kind, TokenKind::EqualEqual);
        if let Expr::BinOp(_, lop, _) = *lhs {
            assert_eq!(lop.kind, TokenKind::Less);
        } else {
            panic!("left side should be a comparison");
        }
        if let Expr::BinOp(_, rop, _) = *rhs {
            assert_eq!(rop.kind, TokenKind::GreaterEqual);
        } else {
            panic!("right side should be a comparison");
        }
    } else {
        panic!("expected a binary operation");
    }
}

#[test]
fn string_literal_parses_as_primary() {
    let e = expr_of("\"hi\"");
    assert_eq!(e, Expr::StringLit("hi".to_string()));
}

#[test]
fn bang_token_parses_as_unary() {
    // The scanner never emits a lone `!`, but the parser accepts one
    // in a hand-built token stream.
    let tokens = vec![
        Token::of(TokenKind::Bang, 0, 1, 1),
        Token::of(TokenKind::IntLit(1), 1, 2, 1),
        Token::of(TokenKind::Eof, 2, 2, 1),
    ];
    let mut p = Parser::new(tokens);
    let e = p.parse_expr().expect("expression should parse");
    if let Expr::UnaryOp(op, inner) = e {
        assert_eq!(op.kind, TokenKind::Bang);
        assert_eq!(int_lit(&inner), 1);
    } else {
        panic!("expected a unary operation");
    }
}

#[test]
fn declaration_parses() {
    let stmts = parse_source("var x:int=5").expect("should parse");
    assert_eq!(
        stmts,
        vec![Stmt::VarDeclaration(
            Name {
                value: "x".to_string()
            },
            Type::Int,
            Expr::IntLit(5),
        )]
    );
}

#[test]
fn string_declaration_parses() {
    let stmts = parse_source("var s:str=\"hello world\"").expect("should parse");
    assert_eq!(
        stmts,
        vec![Stmt::VarDeclaration(
            Name {
                value: "s".to_string()
            },
            Type::String,
            Expr::StringLit("hello world".to_string()),
        )]
    );
}

#[test]
fn declaration_with_expression_initializer() {
    let stmts = parse_source("var x:int=0x10+2*3").expect("should parse");
    assert_eq!(stmts.len(), 1);
    if let Stmt::VarDeclaration(name, ty, value) = &stmts[0] {
        assert_eq!(name.value, "x");
        assert_eq!(*ty, Type::Int);
        assert!(matches!(value, Expr::BinOp(_, _, _)));
    } else {
        panic!("expected a declaration");
    }
}

#[test]
fn bare_integer_statement_is_rejected() {
    let err = parse_source("5").expect_err("should fail");
    assert_eq!(err.message, "invalid statement type");
    assert_eq!(err.position, 0);
    assert_eq!(err.curr_token.kind, TokenKind::IntLit(5));
}

#[test]
fn reserved_keyword_statement_is_rejected() {
    let err = parse_source("if").expect_err("should fail");
    assert_eq!(err.message, "invalid statement type");
}

#[test]
fn missing_colon_is_an_error() {
    let err = parse_source("var x int=5").expect_err("should fail");
    assert_eq!(err.message, "expected a colon");
}

#[test]
fn unrecognized_type_tag_is_an_error() {
    let err = parse_source("var x:float=5").expect_err("should fail");
    assert_eq!(err.message, "invalid type");
}

#[test]
fn missing_initializer_is_an_error() {
    let err = parse_source("var x:int").expect_err("should fail");
    assert_eq!(err.message, "expected value");
}

#[test]
fn bad_initializer_expression_is_an_error() {
    let err = parse_source("var x:int=+").expect_err("should fail");
    assert_eq!(err.message, "invalid expression");
}

#[test]
fn newline_between_statements_is_rejected() {
    // The statement grammar knows no separator yet: the newline token
    // after the first declaration is not a valid statement start.
    let err = parse_source("var x:int=1\nvar y:int=2").expect_err("should fail");
    assert_eq!(err.message, "invalid statement type");
    assert_eq!(err.curr_token.kind, TokenKind::NewLine);
}

#[test]
fn parse_stmt_parses_one_statement() {
    let mut p = parser_for("var x:int=1");
    let st = p.parse_stmt().expect("should parse");
    assert!(matches!(st, Stmt::VarDeclaration(_, _, _)));
}

#[test]
fn parse_error_renders_with_position_and_token() {
    let err = parse_source("5").expect_err("should fail");
    assert_eq!(
        err.render(),
        "ParseError: error at position 0, token unknown: invalid statement type"
    );
    let err = parse_source("var x:int=+").expect_err("should fail");
    assert_eq!(err.curr_token.kind, TokenKind::Plus);
    assert_eq!(
        err.render(),
        format!(
            "ParseError: error at position {}, token +: invalid expression",
            err.position
        )
    );
}
