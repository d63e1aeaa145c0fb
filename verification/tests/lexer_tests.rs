use lune::lexer::Lexer;
use lune::token::{Token, TokenKind};

fn scan(src: &str) -> Vec<Token> {
    let mut lx = Lexer::new(src);
    lx.scan().expect("scan should succeed")
}

fn kinds(src: &str) -> Vec<TokenKind> {
    scan(src).into_iter().map(|t| t.kind).collect()
}

#[test]
fn empty_source_scans_to_single_eof() {
    let toks = scan("");
    assert_eq!(toks.len(), 1);
    assert_eq!(toks[0].kind, TokenKind::Eof);
}

#[test]
fn eof_is_unique_and_last() {
    let toks = scan("var x:int=1 + 2");
    assert_eq!(toks.last().unwrap().kind, TokenKind::Eof);
    let eofs = toks.iter().filter(|t| t.kind == TokenKind::Eof).count();
    assert_eq!(eofs, 1);
}

#[test]
fn compound_operators_scan_as_one_token() {
    let cases = [
        ("+=", TokenKind::PlusEqual),
        ("-=", TokenKind::MinusEqual),
        ("!=", TokenKind::BangEqual),
        ("==", TokenKind::EqualEqual),
        ("<=", TokenKind::LessEqual),
        (">=", TokenKind::GreaterEqual),
    ];
    for (src, expected) in cases {
        let ks = kinds(src);
        assert_eq!(ks, vec![expected, TokenKind::Eof], "scanning {:?}", src);
    }
}

#[test]
fn single_character_tokens_scan() {
    let ks = kinds("( ) { } , . + - * / : = < >");
    assert_eq!(
        ks,
        vec![
            TokenKind::LParen,
            TokenKind::RParen,
            TokenKind::LBrace,
            TokenKind::RBrace,
            TokenKind::Comma,
            TokenKind::Dot,
            TokenKind::Plus,
            TokenKind::Minus,
            TokenKind::Star,
            TokenKind::Slash,
            TokenKind::Colon,
            TokenKind::Equal,
            TokenKind::Less,
            TokenKind::Greater,
            TokenKind::Eof,
        ]
    );
}

#[test]
fn hex_literal_decodes() {
    assert_eq!(kinds("0x2000"), vec![TokenKind::IntLit(8192), TokenKind::Eof]);
}

#[test]
fn hex_literal_accepts_both_cases() {
    assert_eq!(kinds("0xFf"), vec![TokenKind::IntLit(255), TokenKind::Eof]);
}

#[test]
fn bin_literal_decodes() {
    assert_eq!(kinds("0b101"), vec![TokenKind::IntLit(5), TokenKind::Eof]);
}

#[test]
fn decimal_literal_decodes() {
    assert_eq!(kinds("42"), vec![TokenKind::IntLit(42), TokenKind::Eof]);
    assert_eq!(kinds("007"), vec![TokenKind::IntLit(7), TokenKind::Eof]);
    assert_eq!(
        kinds("2147483647"),
        vec![TokenKind::IntLit(2147483647), TokenKind::Eof]
    );
}

#[test]
fn declaration_token_sequence() {
    let ks = kinds("var x:int=10");
    assert_eq!(
        ks,
        vec![
            TokenKind::Var,
            TokenKind::Identifier("x".to_string()),
            TokenKind::Colon,
            TokenKind::IntType,
            TokenKind::Equal,
            TokenKind::IntLit(10),
            TokenKind::Eof,
        ]
    );
}

#[test]
fn keywords_scan_to_keyword_tokens() {
    let ks = kinds("if else for while case proc ptr var int str other");
    assert_eq!(
        ks,
        vec![
            TokenKind::If,
            TokenKind::Else,
            TokenKind::For,
            TokenKind::While,
            TokenKind::Case,
            TokenKind::Proc,
            TokenKind::Ptr,
            TokenKind::Var,
            TokenKind::IntType,
            TokenKind::StrType,
            TokenKind::Identifier("other".to_string()),
            TokenKind::Eof,
        ]
    );
}

#[test]
fn identifier_with_underscore() {
    let ks = kinds("my_name _tmp");
    assert_eq!(
        ks,
        vec![
            TokenKind::Identifier("my_name".to_string()),
            TokenKind::Identifier("_tmp".to_string()),
            TokenKind::Eof,
        ]
    );
}

#[test]
fn string_escape_newline_decodes() {
    let ks = kinds("\"a\\nb\"");
    assert_eq!(
        ks,
        vec![TokenKind::StringLit("a\nb".to_string()), TokenKind::Eof]
    );
}

#[test]
fn string_escapes_tab_return_backslash() {
    let ks = kinds("\"a\\tb\\rc\\\\d\"");
    assert_eq!(
        ks,
        vec![TokenKind::StringLit("a\tb\rc\\d".to_string()), TokenKind::Eof]
    );
}

#[test]
fn string_backslash_before_other_character_is_kept() {
    let ks = kinds("\"a\\xb\"");
    assert_eq!(
        ks,
        vec![TokenKind::StringLit("a\\xb".to_string()), TokenKind::Eof]
    );
}

#[test]
fn comment_skipping_matches_plain_source() {
    let with_comment = kinds("# comment\nvar x:int=1");
    let plain = kinds("var x:int=1");
    assert_eq!(with_comment, plain);
}

#[test]
fn line_continuation_joins_physical_lines() {
    let continued = kinds("var x:int=1\\\n+2");
    let joined = kinds("var x:int=1+2");
    assert_eq!(continued, joined);
}

#[test]
fn newline_emits_token_and_increments_line() {
    let toks = scan("a\nb");
    assert_eq!(toks[0].kind, TokenKind::Identifier("a".to_string()));
    assert_eq!(toks[0].line, 1);
    assert_eq!(toks[1].kind, TokenKind::NewLine);
    assert_eq!(toks[1].line, 1);
    assert_eq!(toks[2].kind, TokenKind::Identifier("b".to_string()));
    assert_eq!(toks[2].line, 2);
    assert_eq!(toks[3].kind, TokenKind::Eof);
    assert_eq!(toks[3].line, 2);
}

#[test]
fn unknown_characters_are_skipped() {
    assert_eq!(kinds("@ $ ?"), vec![TokenKind::Eof]);
    assert_eq!(kinds("!"), vec![TokenKind::Eof]);
}

#[test]
fn token_spans_cover_lexemes() {
    let toks = scan("var x");
    assert_eq!((toks[0].start, toks[0].end), (0, 3));
    assert_eq!((toks[1].start, toks[1].end), (4, 5));
    assert_eq!((toks[2].start, toks[2].end), (5, 5));
}

#[test]
fn token_of_builds_token() {
    let t = Token::of(TokenKind::Comma, 3, 4, 7);
    assert_eq!(t.kind, TokenKind::Comma);
    assert_eq!(t.start, 3);
    assert_eq!(t.end, 4);
    assert_eq!(t.line, 7);
}

#[test]
fn unterminated_string_is_error() {
    let mut lx = Lexer::new("\"abc");
    let err = lx.scan().expect_err("should fail");
    assert_eq!(err.message, "unexpected end of string");
    assert_eq!(err.position, 0);
    assert_eq!(err.line, 1);
}

#[test]
fn empty_radix_digits_are_an_error() {
    let mut lx = Lexer::new("0x");
    let err = lx.scan().expect_err("should fail");
    assert_eq!(err.message, "invalid integer literal");
    let mut lx = Lexer::new("0b");
    assert!(lx.scan().is_err());
}

#[test]
fn integer_overflow_is_an_error() {
    let mut lx = Lexer::new("2147483648");
    let err = lx.scan().expect_err("should fail");
    assert_eq!(err.message, "invalid integer literal");
    let mut lx = Lexer::new("0x80000000");
    assert!(lx.scan().is_err());
}

#[test]
fn lexer_error_renders_with_line_and_position() {
    let mut lx = Lexer::new("\n  \"a");
    let err = lx.scan().expect_err("should fail");
    assert_eq!(
        err.render(),
        format!(
            "LexerError: error at line {}, position {}: unexpected end of string",
            err.line, err.position
        )
    );
    assert_eq!(err.line, 2);
    assert_eq!(err.position, 3);
}

#[test]
fn kind_text_names_punctuation() {
    assert_eq!(TokenKind::Plus.text(), "+");
    assert_eq!(TokenKind::LParen.text(), "(");
    assert_eq!(TokenKind::Var.text(), "unknown");
}
