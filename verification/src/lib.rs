//! Front end for a small imperative language: a lexer that turns source
//! text into a sequence of positioned tokens, and a recursive-descent
//! parser that turns the token sequence into statement and expression
//! trees. Every function is specified against spec-level models of the
//! source text (`Seq<char>`) and of the token stream.

pub mod token;
pub mod ast;
pub mod errors;
pub mod lexer;
pub mod parser;
