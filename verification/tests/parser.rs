use lithc::error::ErrorCode;
use lithc::expression::{Expression, ExpressionType, LiteralType};
use lithc::lexer::Lexer;
use lithc::parser::Parser;
use lithc::statement::{FunctionStatement, LetStatement, ParameterType, ReturnStatement, Statement, StatementType};
use lithc::stream::TokenStream;
use lithc::token::{Span, TokenType};

fn lex_stream(source: &str) -> TokenStream {
    let mut lexer = Lexer::new();
    lexer.lex(source);
    lexer.get_tokens_peekable()
}

#[test]
fn precedence_left_deepening() {
    // "a * b / c;" parses to (a * b) / c: the outer operator is `/` and its
    // left child is the `a * b` binary node.
    let mut tokens = lex_stream("a * b / c;");
    let expr = Expression::parse(&mut tokens).unwrap();
    match &expr.expression {
        ExpressionType::Binary(outer) => {
            assert_eq!(outer.operator.type_, TokenType::Slash);
            match &outer.left.expression {
                ExpressionType::Binary(inner) => {
                    assert_eq!(inner.operator.type_, TokenType::Asterisk);
                    match &inner.left.expression {
                        ExpressionType::Literal(l) => assert_eq!(l.value, "a"),
                        _ => panic!("expected literal left operand"),
                    }
                    match &inner.right.expression {
                        ExpressionType::Literal(l) => assert_eq!(l.value, "b"),
                        _ => panic!("expected literal right operand"),
                    }
                },
                _ => panic!("expected binary left child"),
            }
            match &outer.right.expression {
                ExpressionType::Literal(l) => assert_eq!(l.value, "c"),
                _ => panic!("expected literal right operand"),
            }
        },
        _ => panic!("expected binary expression"),
    }
    // The binary span covers from the left operand's start to the right
    // operand's end.
    assert_eq!(expr.span, Span { start: 0, end: 9 });
}

#[test]
fn optional_initializer_absent() {
    let mut tokens = lex_stream("let x;");
    let (stmt, span) = Statement::parse(&mut tokens).unwrap();
    match stmt {
        StatementType::Let(l) => {
            assert_eq!(l.name, "x");
            assert!(l.value.is_none());
        },
        _ => panic!("expected let statement"),
    }
    assert_eq!(span, Span { start: 0, end: 6 });
}

#[test]
fn optional_initializer_present() {
    let mut tokens = lex_stream("let x = 1;");
    let (stmt, _span) = Statement::parse(&mut tokens).unwrap();
    match stmt {
        StatementType::Let(l) => {
            assert_eq!(l.name, "x");
            let value = l.value.expect("initializer expected");
            match value.expression {
                ExpressionType::Literal(lit) => {
                    assert_eq!(lit.literal, LiteralType::Integer);
                    assert_eq!(lit.value, "1");
                },
                _ => panic!("expected literal initializer"),
            }
        },
        _ => panic!("expected let statement"),
    }
}

#[test]
fn function_round_trip() {
    // Two parameters (a: Integer, b: Unknown), return type Integer, and a
    // single-statement body `return a;`.
    let mut tokens = lex_stream("function f(a: int, b): int { return a; }");
    let (stmt, span) = Statement::parse(&mut tokens).unwrap();
    match stmt {
        StatementType::Function(f) => {
            assert_eq!(f.name, "f");
            assert_eq!(f.parameters.len(), 2);
            assert_eq!(f.parameters[0].name, "a");
            assert_eq!(f.parameters[0].type_, ParameterType::Integer);
            assert_eq!(f.parameters[1].name, "b");
            assert_eq!(f.parameters[1].type_, ParameterType::Unknown);
            assert_eq!(f.return_type, ParameterType::Integer);
            assert_eq!(f.body.len(), 1);
            match &f.body[0].0 {
                StatementType::Return(r) => {
                    let value = r.value.as_ref().expect("return value expected");
                    match &value.expression {
                        ExpressionType::Literal(l) => assert_eq!(l.value, "a"),
                        _ => panic!("expected literal return value"),
                    }
                },
                _ => panic!("expected return statement in body"),
            }
        },
        _ => panic!("expected function statement"),
    }
    // Span runs from `function` to the body's closing brace.
    assert_eq!(span, Span { start: 0, end: 40 });
}

#[test]
fn error_let_requires_identifier() {
    // The offending token is the integer literal "5", not the `let` keyword.
    let mut tokens = lex_stream("let 5 = 1;");
    let err = Parser::parse(&mut tokens).unwrap_err();
    assert_eq!(err.error_code, ErrorCode::UnshiftedUnexpectedToken);
    assert_eq!(err.token.type_, TokenType::IntegerLiteral);
    assert_eq!(err.token.value, "5");
}

#[test]
fn error_truncated_input() {
    // "let x =" fails with an end-of-input diagnostic rather than panicking.
    let mut tokens = lex_stream("let x =");
    let err = Parser::parse(&mut tokens).unwrap_err();
    assert_eq!(err.error_code, ErrorCode::UnexpectedToken);
    assert_eq!(err.token.value, "<invalid>");
    assert_eq!(err.token.span, Span { start: 0, end: 0 });
}

#[test]
fn error_invalid_expression() {
    let mut tokens = lex_stream("let x = ;");
    let err = Parser::parse(&mut tokens).unwrap_err();
    assert_eq!(err.error_code, ErrorCode::InvalidExpression);
    assert_eq!(err.token.type_, TokenType::Semicolon);
}

#[test]
fn error_invalid_parameter_type() {
    let mut tokens = lex_stream("function f(a: float) { }");
    let err = Parser::parse(&mut tokens).unwrap_err();
    assert_eq!(err.error_code, ErrorCode::InvalidParameterType);
    assert_eq!(err.token.value, "float");
}

#[test]
fn error_invalid_return_type() {
    let mut tokens = lex_stream("function f(): float { }");
    let err = Parser::parse(&mut tokens).unwrap_err();
    assert_eq!(err.error_code, ErrorCode::InvalidReturnType);
    assert_eq!(err.token.value, "float");
}

#[test]
fn error_unclosed_block() {
    // A statement is expected before the block's closing brace, but no token
    // is left.
    let mut tokens = lex_stream("{");
    let err = Parser::parse(&mut tokens).unwrap_err();
    assert_eq!(err.error_code, ErrorCode::NoTokensLeft);
}

#[test]
fn parse_empty_input_is_empty_ast() {
    let mut tokens = lex_stream("");
    let ast = Parser::parse(&mut tokens).unwrap();
    assert_eq!(ast.statements.len(), 0);
}

#[test]
fn parse_block_statement() {
    let mut tokens = lex_stream("{ let a; let b; }");
    let (stmt, span) = Statement::parse(&mut tokens).unwrap();
    match stmt {
        StatementType::Block(b) => {
            assert_eq!(b.statements.len(), 2);
        },
        _ => panic!("expected block statement"),
    }
    assert_eq!(span, Span { start: 0, end: 17 });
}

#[test]
fn parse_intrinsic_statement() {
    let mut tokens = lex_stream("@print(x, 1);");
    let (stmt, span) = Statement::parse(&mut tokens).unwrap();
    match stmt {
        StatementType::Intrinsic(i) => {
            assert_eq!(i.name, "print");
            assert_eq!(i.arguments.len(), 2);
        },
        _ => panic!("expected intrinsic statement"),
    }
    assert_eq!(span, Span { start: 0, end: 13 });
}

#[test]
fn parse_function_call_expression() {
    let mut tokens = lex_stream("f(1, g(2), x)");
    let expr = Expression::parse(&mut tokens).unwrap();
    match &expr.expression {
        ExpressionType::FunctionCall(c) => {
            assert_eq!(c.name, "f");
            assert_eq!(c.arguments.len(), 3);
            match &c.arguments[1].expression {
                ExpressionType::FunctionCall(inner) => {
                    assert_eq!(inner.name, "g");
                    assert_eq!(inner.arguments.len(), 1);
                },
                _ => panic!("expected nested call"),
            }
        },
        _ => panic!("expected call expression"),
    }
    // The call's span runs from the callee to the closing parenthesis.
    assert_eq!(expr.span, Span { start: 0, end: 13 });
}

#[test]
fn parse_empty_and_trailing_comma_arguments() {
    let mut tokens = lex_stream("f()");
    let expr = Expression::parse(&mut tokens).unwrap();
    match &expr.expression {
        ExpressionType::FunctionCall(c) => assert_eq!(c.arguments.len(), 0),
        _ => panic!("expected call expression"),
    }
    let mut tokens2 = lex_stream("f(a,)");
    let expr2 = Expression::parse(&mut tokens2).unwrap();
    match &expr2.expression {
        ExpressionType::FunctionCall(c) => assert_eq!(c.arguments.len(), 1),
        _ => panic!("expected call expression"),
    }
}

#[test]
fn parse_placeholder_statements() {
    // if / for / while / break / continue are consumed syntactically but
    // produce Unknown placeholders carrying the correct span.
    let cases: Vec<(&str, usize, usize)> = vec![
        ("break;", 0, 6),
        ("continue;", 0, 9),
        ("while x { }", 0, 11),
        ("if x { } else { }", 0, 17),
        ("for ; x ; { }", 0, 13),
    ];
    for (source, start, end) in cases {
        let mut tokens = lex_stream(source);
        let (stmt, span) = Statement::parse(&mut tokens).unwrap();
        assert_eq!(stmt, StatementType::Unknown, "source: {}", source);
        assert_eq!(span, Span { start, end }, "source: {}", source);
    }
}

#[test]
fn parse_logical_and_equality_operators() {
    let mut tokens = lex_stream("a && b || c == d;");
    let expr = Expression::parse(&mut tokens).unwrap();
    // Lowest level here is ||: (a && b) || (c == d).
    match &expr.expression {
        ExpressionType::Binary(outer) => {
            assert_eq!(outer.operator.type_, TokenType::PipePipe);
            match &outer.left.expression {
                ExpressionType::Binary(l) => {
                    assert_eq!(l.operator.type_, TokenType::AmpersandAmpersand)
                },
                _ => panic!("expected && on the left"),
            }
            match &outer.right.expression {
                ExpressionType::Binary(r) => {
                    assert_eq!(r.operator.type_, TokenType::EqualsEquals)
                },
                _ => panic!("expected == on the right"),
            }
        },
        _ => panic!("expected binary expression"),
    }
}

#[test]
fn legacy_entry_points_agree() {
    let mut tokens = lex_stream("let x = 2;");
    let parsed = LetStatement::parse(&mut tokens).unwrap();
    let mut tokens2 = lex_stream("let x = 2;");
    let expected = Statement::parse(&mut tokens2).unwrap();
    assert_eq!(parsed, expected);

    let mut tokens3 = lex_stream("return 1;");
    let ret = ReturnStatement::parse(&mut tokens3).unwrap();
    assert!(matches!(ret.0, StatementType::Return(_)));

    let mut tokens4 = lex_stream("function f() { }");
    let f = FunctionStatement::parse(&mut tokens4).unwrap();
    assert!(matches!(f.0, StatementType::Function(_)));
}
