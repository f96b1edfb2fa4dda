//! The token model: token kinds, byte-offset spans, and concrete tokens.

use vstd::prelude::*;

verus! {

/// The closed set of token kinds the lexer can produce.
#[derive(Debug, PartialEq, Eq, Clone, Copy, Structural)]
pub enum TokenType {
    // Special tokens
    Unknown,
    // Single char tokens
    Ampersand,
    Asterisk,
    At,
    Colon,
    Comma,
    Equals,
    LeftBrace,
    LeftParen,
    Pipe,
    RightBrace,
    RightParen,
    Semicolon,
    Slash,
    // Multi-char tokens
    AmpersandAmpersand,
    BangEquals,
    EqualsEquals,
    PipePipe,
    // Keywords
    Break,
    Continue,
    Else,
    For,
    Function,
    Let,
    If,
    Return,
    While,
    // N-char tokens
    Identifier,
    IntegerLiteral,
}

/// A half-open byte-offset range locating a token or node in source text.
#[derive(Debug, PartialEq, Eq, Clone, Copy, Structural)]
pub struct Span {
    pub start: usize,
    pub end: usize,
}

/// Mathematical image of a span.
pub struct SpanV {
    pub start: int,
    pub end: int,
}

impl View for Span {
    type V = SpanV;

    open spec fn view(&self) -> SpanV {
        SpanV { start: self.start as int, end: self.end as int }
    }
}

/// Mathematical image of a token: kind, lexeme characters, and byte offsets.
pub struct TokenV {
    pub type_: TokenType,
    pub text: Seq<char>,
    pub start: int,
    pub end: int,
}

/// The smallest lexical unit: a kind, the exact lexeme, and its span.
#[derive(Debug, PartialEq, Eq)]
pub struct Token {
    pub type_: TokenType,
    pub value: String,
    pub span: Span,
}

impl View for Token {
    type V = TokenV;

    open spec fn view(&self) -> TokenV {
        TokenV {
            type_: self.type_,
            text: self.value@,
            start: self.span.start as int,
            end: self.span.end as int,
        }
    }
}

impl Clone for Token {
    fn clone(&self) -> (res: Self)
        ensures
            res@ == self@,
    {
        Token { type_: self.type_, value: self.value.clone(), span: self.span }
    }
}

/// The display name of each token kind.
pub open spec fn spec_token_type_name(t: TokenType) -> Seq<char> {
    match t {
        TokenType::Unknown => "Unknown"@,
        TokenType::Ampersand => "Ampersand"@,
        TokenType::Asterisk => "Asterisk"@,
        TokenType::At => "At"@,
        TokenType::Colon => "Colon"@,
        TokenType::Comma => "Comma"@,
        TokenType::Equals => "Equals"@,
        TokenType::LeftBrace => "LeftBrace"@,
        TokenType::LeftParen => "LeftParen"@,
        TokenType::Pipe => "Pipe"@,
        TokenType::RightBrace => "RightBrace"@,
        TokenType::RightParen => "RightParen"@,
        TokenType::Semicolon => "Semicolon"@,
        TokenType::Slash => "Slash"@,
        TokenType::AmpersandAmpersand => "AmpersandAmpersand"@,
        TokenType::BangEquals => "BangEquals"@,
        TokenType::EqualsEquals => "EqualsEquals"@,
        TokenType::PipePipe => "PipePipe"@,
        TokenType::Break => "Break"@,
        TokenType::Continue => "Continue"@,
        TokenType::Else => "Else"@,
        TokenType::For => "For"@,
        TokenType::Function => "Function"@,
        TokenType::Let => "Let"@,
        TokenType::If => "If"@,
        TokenType::Return => "Return"@,
        TokenType::While => "While"@,
        TokenType::Identifier => "Identifier"@,
        TokenType::IntegerLiteral => "IntegerLiteral"@,
    }
}

pub fn token_type_name(t: TokenType) -> (r: &'static str)
    ensures
        r@ == spec_token_type_name(t),
{
    match t {
        TokenType::Unknown => "Unknown",
        TokenType::Ampersand => "Ampersand",
        TokenType::Asterisk => "Asterisk",
        TokenType::At => "At",
        TokenType::Colon => "Colon",
        TokenType::Comma => "Comma",
        TokenType::Equals => "Equals",
        TokenType::LeftBrace => "LeftBrace",
        TokenType::LeftParen => "LeftParen",
        TokenType::Pipe => "Pipe",
        TokenType::RightBrace => "RightBrace",
        TokenType::RightParen => "RightParen",
        TokenType::Semicolon => "Semicolon",
        TokenType::Slash => "Slash",
        TokenType::AmpersandAmpersand => "AmpersandAmpersand",
        TokenType::BangEquals => "BangEquals",
        TokenType::EqualsEquals => "EqualsEquals",
        TokenType::PipePipe => "PipePipe",
        TokenType::Break => "Break",
        TokenType::Continue => "Continue",
        TokenType::Else => "Else",
        TokenType::For => "For",
        TokenType::Function => "Function",
        TokenType::Let => "Let",
        TokenType::If => "If",
        TokenType::Return => "Return",
        TokenType::While => "While",
        TokenType::Identifier => "Identifier",
        TokenType::IntegerLiteral => "IntegerLiteral",
    }
}

/// The image of the sentinel token that stands for "no token here".
pub open spec fn invalid_token_v() -> TokenV {
    TokenV { type_: TokenType::Unknown, text: "<invalid>"@, start: 0, end: 0 }
}

impl Token {
    /// The sentinel token used when a diagnostic has no real token to point at,
    /// e.g. at end of input; it carries a zero-width span.
    pub fn invalid() -> (r: Token)
        ensures
            r@ == invalid_token_v(),
    {
        Token {
            type_: TokenType::Unknown,
            value: "<invalid>".to_owned(),
            span: Span { start: 0, end: 0 },
        }
    }
}

} // verus!
