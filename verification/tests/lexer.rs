use lithc::lexer::Lexer;
use lithc::token::{Span, TokenType};

#[test]
fn test_lexer() {
    let input = "let x = 5;";
    let mut lexer = Lexer::new();
    lexer.lex(input);
    assert_eq!(lexer.tokens.len(), 5);

    assert_eq!(lexer.tokens[0].type_, TokenType::Let);
    assert_eq!(lexer.tokens[0].value, "let");
    assert_eq!(lexer.tokens[0].span, Span { start: 0, end: 3 });

    assert_eq!(lexer.tokens[1].type_, TokenType::Identifier);
    assert_eq!(lexer.tokens[1].value, "x");
    assert_eq!(lexer.tokens[1].span, Span { start: 4, end: 5 });

    assert_eq!(lexer.tokens[2].type_, TokenType::Equals);
    assert_eq!(lexer.tokens[2].value, "=");
    assert_eq!(lexer.tokens[2].span, Span { start: 6, end: 7 });

    assert_eq!(lexer.tokens[3].type_, TokenType::IntegerLiteral);
    assert_eq!(lexer.tokens[3].value, "5");
    assert_eq!(lexer.tokens[3].span, Span { start: 8, end: 9 });

    assert_eq!(lexer.tokens[4].type_, TokenType::Semicolon);
    assert_eq!(lexer.tokens[4].value, ";");
    assert_eq!(lexer.tokens[4].span, Span { start: 9, end: 10 });
}

#[test]
fn lexing_is_deterministic() {
    let input = "function f(a: int) { return a * 2; } @sum(1, 2); # αβ";
    let mut first = Lexer::new();
    first.lex(input);
    let mut second = Lexer::new();
    second.lex(input);
    assert_eq!(first.tokens, second.tokens);
    // Re-lexing with the same Lexer value replaces the tokens with the same
    // sequence.
    first.lex(input);
    assert_eq!(first.tokens, second.tokens);
}

#[test]
fn span_coverage() {
    // Every token's text is exactly the source slice between its byte
    // offsets, including over multi-byte characters.
    let input = "let αβ = 5; # € while";
    let mut lexer = Lexer::new();
    lexer.lex(input);
    assert!(lexer.tokens.len() > 0);
    for token in &lexer.tokens {
        assert_eq!(
            &input.as_bytes()[token.span.start..token.span.end],
            token.value.as_bytes()
        );
    }
}

#[test]
fn unknown_fallback_single_ascii() {
    let mut lexer = Lexer::new();
    lexer.lex("#");
    assert_eq!(lexer.tokens.len(), 1);
    assert_eq!(lexer.tokens[0].type_, TokenType::Unknown);
    assert_eq!(lexer.tokens[0].value, "#");
    assert_eq!(lexer.tokens[0].span, Span { start: 0, end: 1 });
}

#[test]
fn unknown_fallback_multibyte() {
    // One unmatched character lexes to exactly one Unknown token spanning
    // that character's bytes.
    let mut lexer = Lexer::new();
    lexer.lex("€");
    assert_eq!(lexer.tokens.len(), 1);
    assert_eq!(lexer.tokens[0].type_, TokenType::Unknown);
    assert_eq!(lexer.tokens[0].value, "€");
    assert_eq!(lexer.tokens[0].span, Span { start: 0, end: 3 });
}

#[test]
fn keywords_are_recognized() {
    let input = "let function return if else for while break continue letx";
    let mut lexer = Lexer::new();
    lexer.lex(input);
    let kinds: Vec<TokenType> = lexer.tokens.iter().map(|t| t.type_).collect();
    assert_eq!(
        kinds,
        vec![
            TokenType::Let,
            TokenType::Function,
            TokenType::Return,
            TokenType::If,
            TokenType::Else,
            TokenType::For,
            TokenType::While,
            TokenType::Break,
            TokenType::Continue,
            TokenType::Identifier,
        ]
    );
    assert_eq!(lexer.tokens[9].value, "letx");
}

#[test]
fn compound_operators_use_lookahead() {
    let input = "a && b || c == d != e & f | g = h ! *";
    let mut lexer = Lexer::new();
    lexer.lex(input);
    let kinds: Vec<TokenType> = lexer.tokens.iter().map(|t| t.type_).collect();
    assert_eq!(
        kinds,
        vec![
            TokenType::Identifier,
            TokenType::AmpersandAmpersand,
            TokenType::Identifier,
            TokenType::PipePipe,
            TokenType::Identifier,
            TokenType::EqualsEquals,
            TokenType::Identifier,
            TokenType::BangEquals,
            TokenType::Identifier,
            TokenType::Ampersand,
            TokenType::Identifier,
            TokenType::Pipe,
            TokenType::Identifier,
            TokenType::Equals,
            TokenType::Identifier,
            TokenType::Unknown,
            TokenType::Asterisk,
        ]
    );
}

#[test]
fn punctuation_kinds() {
    let input = "@ , : = { ( ) } ; * / 42 name_1";
    let mut lexer = Lexer::new();
    lexer.lex(input);
    let kinds: Vec<TokenType> = lexer.tokens.iter().map(|t| t.type_).collect();
    assert_eq!(
        kinds,
        vec![
            TokenType::At,
            TokenType::Comma,
            TokenType::Colon,
            TokenType::Equals,
            TokenType::LeftBrace,
            TokenType::LeftParen,
            TokenType::RightParen,
            TokenType::RightBrace,
            TokenType::Semicolon,
            TokenType::Asterisk,
            TokenType::Slash,
            TokenType::IntegerLiteral,
            TokenType::Identifier,
        ]
    );
    assert_eq!(lexer.tokens[11].value, "42");
    assert_eq!(lexer.tokens[12].value, "name_1");
}

#[test]
fn empty_and_whitespace_inputs() {
    let mut lexer = Lexer::new();
    lexer.lex("");
    assert_eq!(lexer.tokens.len(), 0);
    lexer.lex("  \t\n  ");
    assert_eq!(lexer.tokens.len(), 0);
}

#[test]
fn token_invalid_is_zero_width_unknown() {
    let t = lithc::token::Token::invalid();
    assert_eq!(t.type_, TokenType::Unknown);
    assert_eq!(t.value, "<invalid>");
    assert_eq!(t.span, Span { start: 0, end: 0 });
}
