use lithc::compiler::Compiler;
use lithc::error::{CompilerError, ErrorCode};
use lithc::error_logger::{line_col, usize_to_string, ErrorLogger};
use lithc::lexer::Lexer;
use lithc::statement::StatementType;
use lithc::token::{Span, Token, TokenType};

#[test]
fn compile_success() {
    let source = "let x = 5; function f(a: int): int { return a * x; }";
    let mut compiler = Compiler::new(source, "main.lit");
    let ast = compiler.compile().unwrap();
    assert_eq!(ast.statements.len(), 2);
    assert!(matches!(ast.statements[0].0, StatementType::Let(_)));
    assert!(matches!(ast.statements[1].0, StatementType::Function(_)));
    assert_eq!(compiler.diagnostics.len(), 0);
    assert_eq!(compiler.reports.len(), 0);
}

#[test]
fn compile_reports_unknown_tokens() {
    // Each Unknown token is reported as an UnknownToken diagnostic, and the
    // parser then trips on the first one.
    let source = "# ~";
    let mut compiler = Compiler::new(source, "main.lit");
    let result = compiler.compile();
    assert!(result.is_err());
    assert_eq!(compiler.diagnostics.len(), 3);
    assert_eq!(compiler.diagnostics[0].error_code, ErrorCode::UnknownToken);
    assert_eq!(compiler.diagnostics[0].token.value, "#");
    assert_eq!(compiler.diagnostics[1].error_code, ErrorCode::UnknownToken);
    assert_eq!(compiler.diagnostics[1].token.value, "~");
    assert_eq!(
        compiler.diagnostics[2].error_code,
        ErrorCode::InvalidExpression
    );
    assert_eq!(compiler.reports.len(), 3);
}

#[test]
fn compile_failure_summary() {
    let source = "let 5 = 1;";
    let mut compiler = Compiler::new(source, "main.lit");
    let err = compiler.compile().unwrap_err();
    assert!(err.starts_with("Error parsing tokens: "));
    assert_eq!(compiler.diagnostics.len(), 1);
    assert_eq!(
        compiler.diagnostics[0].error_code,
        ErrorCode::UnshiftedUnexpectedToken
    );
}

#[test]
fn report_renders_line_and_column() {
    let source = "let a;\nlet 5;";
    let logger = ErrorLogger::new("main.lit", source);
    let error = CompilerError {
        error_code: ErrorCode::UnshiftedUnexpectedToken,
        error_message: String::from("Expected 'Identifier', got '5'"),
        span_message: String::new(),
        token: Token {
            type_: TokenType::IntegerLiteral,
            value: String::from("5"),
            span: Span { start: 11, end: 12 },
        },
        help: Some(String::from("Expected an identifier")),
        info: None,
    };
    let report = logger.report(&error);
    assert_eq!(
        report,
        "[Unshifted unexpected token] Expected 'Identifier', got '5'\n  at main.lit:2:5\n  help: Expected an identifier"
    );
}

#[test]
fn report_many_renders_each() {
    let source = "#";
    let mut compiler = Compiler::new(source, "main.lit");
    let _ = compiler.compile();
    assert_eq!(compiler.reports.len(), compiler.diagnostics.len());
    assert!(compiler.reports[0].contains("Unknown token"));
    assert!(compiler.reports[0].contains("main.lit:1:1"));
}

#[test]
fn line_col_walks_newlines() {
    assert_eq!(line_col("ab\ncd", 0), (1, 1));
    assert_eq!(line_col("ab\ncd", 2), (1, 3));
    assert_eq!(line_col("ab\ncd", 3), (2, 1));
    assert_eq!(line_col("ab\ncd", 4), (2, 2));
    // Offsets count bytes, not characters.
    assert_eq!(line_col("€x", 3), (1, 2));
}

#[test]
fn decimal_rendering() {
    assert_eq!(usize_to_string(0), "0");
    assert_eq!(usize_to_string(7), "7");
    assert_eq!(usize_to_string(420), "420");
    assert_eq!(usize_to_string(100500), "100500");
}

#[test]
fn stream_cursor_operations() {
    let mut lexer = Lexer::new();
    lexer.lex("let x");
    let mut stream = lexer.get_tokens_peekable();
    assert!(stream.next_matches(TokenType::Let));
    assert!(stream.next_matches_any(&[TokenType::Function, TokenType::Let]));
    assert!(!stream.next_matches(TokenType::Identifier));
    assert!(stream.unshift_if(TokenType::Identifier).is_none());
    let t = stream.unshift_expect(TokenType::Let).unwrap();
    assert_eq!(t.value, "let");
    let x = stream.unshift_expect_any(&[TokenType::Identifier]).unwrap();
    assert_eq!(x.value, "x");
    let err = stream.unshift_expect(TokenType::Semicolon).unwrap_err();
    assert_eq!(err.error_code, ErrorCode::NoTokensLeft);
    assert_eq!(err.token.value, "<invalid>");
}

#[test]
fn stream_expect_consumes_offender() {
    let mut lexer = Lexer::new();
    lexer.lex("5 ;");
    let mut stream = lexer.get_tokens_peekable();
    let err = stream.unshift_expect(TokenType::Identifier).unwrap_err();
    assert_eq!(err.error_code, ErrorCode::UnshiftedUnexpectedToken);
    assert_eq!(err.token.value, "5");
    // The offending token was consumed; the next token is the semicolon.
    assert!(stream.next_matches(TokenType::Semicolon));
}

#[test]
fn compile_full_program() {
    let source = "\
let total;
let base = 2 * 3 / seed();
function compute(a: int, flag: bool, name: string): int {
    let local = a * base;
    { let shadowed; }
    if flag { return local; } else { return 0; }
    while flag { break; }
    for ; flag ; { continue; }
    compute(local, flag, name);
    return local / 2;
}
@trace(base, compute(1, ok, s));
";
    let mut compiler = Compiler::new(source, "program.lit");
    let ast = compiler.compile().unwrap();
    assert_eq!(compiler.diagnostics.len(), 0);
    assert_eq!(ast.statements.len(), 4);
    assert!(matches!(ast.statements[0].0, StatementType::Let(_)));
    assert!(matches!(ast.statements[1].0, StatementType::Let(_)));
    match &ast.statements[2].0 {
        StatementType::Function(f) => {
            assert_eq!(f.name, "compute");
            assert_eq!(f.parameters.len(), 3);
            // if/while/for collapse to Unknown placeholders inside the body.
            assert_eq!(f.body.len(), 7);
        }
        _ => panic!("expected function statement"),
    }
    assert!(matches!(ast.statements[3].0, StatementType::Intrinsic(_)));
}
