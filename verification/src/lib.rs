//! Front end of a small programming-language toolchain: a lexer and a
//! recursive-descent parser that turn source text into an abstract syntax
//! tree, with byte-offset diagnostics for malformed input.

pub mod compiler;
pub mod error;
pub mod error_logger;
pub mod expression;
pub mod lexer;
pub mod parser;
pub mod statement;
pub mod stream;
pub mod token;
