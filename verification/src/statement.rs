//! Statements: the AST nodes and the statement parser. A statement is a
//! tagged variant over Let, Function, Return, Block, Intrinsic, plus an
//! Unknown placeholder for constructs parsed only for cursor correctness
//! (for, if, while, break, continue).

use vstd::prelude::*;
use vstd::string::StringExecFns;
use crate::error::{CompilerError, CompilerResult, ErrV, ErrorCode};
use crate::expression::{exprs_view, sp_args, sp_expr, Expression, ExprV};
use crate::stream::{rem, sp_expect, sp_next_matches, sp_peek, step_idx, TokenStream};
use crate::token::{invalid_token_v, Span, SpanV, Token, TokenType, TokenV};

verus! {

broadcast use vstd::std_specs::vec::group_vec_axioms;

// ---------------------------------------------------------------------------
// The statement AST
// ---------------------------------------------------------------------------

/// A statement paired with the span it was derived from.
pub type SpannedStatement = (StatementType, Span);

#[derive(Debug, PartialEq, Eq)]
pub struct Statement {
    pub statement: StatementType,
    pub span: Span,
}

#[derive(Debug, PartialEq, Eq)]
pub enum StatementType {
    Unknown,
    Block(BlockStatement),
    Let(LetStatement),
    Function(FunctionStatement),
    Return(ReturnStatement),
    Intrinsic(IntrinsicStatement),
}

#[derive(Debug, PartialEq, Eq)]
pub struct BlockStatement {
    pub statements: Vec<SpannedStatement>,
}

#[derive(Debug, PartialEq, Eq)]
pub struct LetStatement {
    pub name: String,
    pub value: Option<Expression>,
}

#[derive(Debug, PartialEq, Eq)]
pub struct FunctionStatement {
    pub name: String,
    pub parameters: Vec<Parameter>,
    pub return_type: ParameterType,
    pub body: Vec<SpannedStatement>,
}

#[derive(Debug, PartialEq, Eq)]
pub struct IntrinsicStatement {
    pub name: String,
    pub arguments: Vec<Expression>,
}

#[derive(Debug, PartialEq, Eq)]
pub struct Parameter {
    pub name: String,
    pub type_: ParameterType,
}

/// The closed set of parameter and return types, derived from the literal
/// type-name text; an unmapped name is `Unknown`, which is an error wherever
/// a type is required.
#[derive(Debug, PartialEq, Eq, Clone, Copy, Structural)]
pub enum ParameterType {
    Unknown,
    Integer,
    Boolean,
    String,
}

#[derive(Debug, PartialEq, Eq)]
pub struct ReturnStatement {
    pub value: Option<Expression>,
}

/// The parameter type a type-name text maps to.
pub open spec fn param_type_of(text: Seq<char>) -> ParameterType {
    if text == "int"@ {
        ParameterType::Integer
    } else if text == "bool"@ {
        ParameterType::Boolean
    } else if text == "string"@ {
        ParameterType::String
    } else {
        ParameterType::Unknown
    }
}

pub fn param_type_from_name(text: &str) -> (r: ParameterType)
    ensures
        r == param_type_of(text@),
{
    if crate::lexer::str_eq(text, "int") {
        ParameterType::Integer
    } else if crate::lexer::str_eq(text, "bool") {
        ParameterType::Boolean
    } else if crate::lexer::str_eq(text, "string") {
        ParameterType::String
    } else {
        ParameterType::Unknown
    }
}

// ---------------------------------------------------------------------------
// Mathematical image of a statement
// ---------------------------------------------------------------------------

pub struct StmtV {
    pub statement: StmtTypeV,
    pub span: SpanV,
}

pub enum StmtTypeV {
    Unknown,
    Block(Seq<StmtV>),
    Let(LetV),
    Function(FunctionV),
    Return(ReturnV),
    Intrinsic(IntrinsicV),
}

pub struct LetV {
    pub name: Seq<char>,
    pub value: Option<ExprV>,
}

pub struct FunctionV {
    pub name: Seq<char>,
    pub parameters: Seq<ParamV>,
    pub return_type: ParameterType,
    pub body: Seq<StmtV>,
}

pub struct ParamV {
    pub name: Seq<char>,
    pub type_: ParameterType,
}

pub struct ReturnV {
    pub value: Option<ExprV>,
}

pub struct IntrinsicV {
    pub name: Seq<char>,
    pub arguments: Seq<ExprV>,
}

pub open spec fn param_view(p: Parameter) -> ParamV {
    ParamV { name: p.name@, type_: p.type_ }
}

/// The images of a parameter list.
pub open spec fn params_view(ps: Seq<Parameter>) -> Seq<ParamV> {
    ps.map_values(|p: Parameter| param_view(p))
}

pub open spec fn stmt_type_view(st: StatementType) -> StmtTypeV
    decreases st,
{
    match st {
        StatementType::Unknown => StmtTypeV::Unknown,
        StatementType::Block(b) => StmtTypeV::Block(
            Seq::new(
                b.statements@.len(),
                |i: int|
                    if 0 <= i < b.statements@.len() {
                        StmtV {
                            statement: stmt_type_view(b.statements@[i].0),
                            span: b.statements@[i].1@,
                        }
                    } else {
                        vstd::pervasive::arbitrary()
                    },
            ),
        ),
        StatementType::Let(l) => StmtTypeV::Let(
            LetV {
                name: l.name@,
                value: match l.value {
                    Some(e) => Some(e@),
                    None => None,
                },
            },
        ),
        StatementType::Function(f) => StmtTypeV::Function(
            FunctionV {
                name: f.name@,
                parameters: params_view(f.parameters@),
                return_type: f.return_type,
                body: Seq::new(
                    f.body@.len(),
                    |i: int|
                        if 0 <= i < f.body@.len() {
                            StmtV { statement: stmt_type_view(f.body@[i].0), span: f.body@[i].1@ }
                        } else {
                            vstd::pervasive::arbitrary()
                        },
                ),
            },
        ),
        StatementType::Return(rt) => StmtTypeV::Return(
            ReturnV {
                value: match rt.value {
                    Some(e) => Some(e@),
                    None => None,
                },
            },
        ),
        StatementType::Intrinsic(it) => StmtTypeV::Intrinsic(
            IntrinsicV { name: it.name@, arguments: exprs_view(it.arguments@) },
        ),
    }
}

/// The image of a statement-with-span pair.
pub open spec fn spanned_view(s: SpannedStatement) -> StmtV {
    StmtV { statement: stmt_type_view(s.0), span: s.1@ }
}

/// The images of a statement sequence.
pub open spec fn stmts_view(ss: Seq<SpannedStatement>) -> Seq<StmtV> {
    ss.map_values(|s: SpannedStatement| spanned_view(s))
}

impl View for Statement {
    type V = StmtV;

    open spec fn view(&self) -> StmtV {
        StmtV { statement: stmt_type_view(self.statement), span: self.span@ }
    }
}

// ---------------------------------------------------------------------------
// The specification grammar of statements
// ---------------------------------------------------------------------------

/// Let statement: `let` Identifier, optionally `=` expression, `;`. An absent
/// initializer is legal. Span runs from `let` to the semicolon.
pub open spec fn sp_let(ts: Seq<TokenV>, i: int) -> Result<(StmtV, int), ErrV> {
    match sp_expect(ts, i, TokenType::Let) {
        Err(e) => Err(e),
        Ok((lt, i1)) => match sp_expect(ts, i1, TokenType::Identifier) {
            Err(e) => Err(e),
            Ok((nt, i2)) => {
                if sp_next_matches(ts, i2, TokenType::Equals) {
                    match sp_expect(ts, i2, TokenType::Equals) {
                        Err(e) => Err(e),
                        Ok((_eq, i3)) => match sp_expr(ts, i3) {
                            Err(e) => Err(e),
                            Ok((v, j)) => match sp_expect(ts, j, TokenType::Semicolon) {
                                Err(e) => Err(e),
                                Ok((sc, j1)) => Ok(
                                    (
                                        StmtV {
                                            statement: StmtTypeV::Let(
                                                LetV { name: nt.text, value: Some(v) },
                                            ),
                                            span: SpanV { start: lt.start, end: sc.end },
                                        },
                                        j1,
                                    ),
                                ),
                            },
                        },
                    }
                } else {
                    match sp_expect(ts, i2, TokenType::Semicolon) {
                        Err(e) => Err(e),
                        Ok((sc, i3)) => Ok(
                            (
                                StmtV {
                                    statement: StmtTypeV::Let(LetV { name: nt.text, value: None }),
                                    span: SpanV { start: lt.start, end: sc.end },
                                },
                                i3,
                            ),
                        ),
                    }
                }
            },
        },
    }
}

/// An optional `:` followed by a type-name identifier; an unmapped name fails
/// with the given error kind, carrying the type-name token.
pub open spec fn sp_type_annotation(ts: Seq<TokenV>, j: int, code: ErrorCode) -> Result<
    (ParameterType, int),
    ErrV,
> {
    if sp_next_matches(ts, j, TokenType::Colon) {
        match sp_expect(ts, j, TokenType::Colon) {
            Err(e) => Err(e),
            Ok((_c, j1)) => match sp_expect(ts, j1, TokenType::Identifier) {
                Err(e) => Err(e),
                Ok((tt, j2)) => {
                    if param_type_of(tt.text) == ParameterType::Unknown {
                        Err(ErrV { code, token: tt })
                    } else {
                        Ok((param_type_of(tt.text), j2))
                    }
                },
            },
        }
    } else {
        Ok((ParameterType::Unknown, j))
    }
}

/// A comma-separated, possibly-empty parameter list, stopped (not consumed)
/// by a closing parenthesis. Each parameter is an identifier with an optional
/// type annotation; an unmapped type name is `InvalidParameterType`.
pub open spec fn sp_params(ts: Seq<TokenV>, i: int) -> Result<(Seq<ParamV>, int), ErrV>
    decreases rem(ts, i),
{
    if sp_next_matches(ts, i, TokenType::RightParen) {
        Ok((Seq::empty(), i))
    } else if i < 0 || i >= ts.len() {
        Err(ErrV { code: ErrorCode::NoTokensLeft, token: invalid_token_v() })
    } else {
        match sp_expect(ts, i, TokenType::Identifier) {
            Err(e) => Err(e),
            Ok((nt, i1)) => match sp_type_annotation(ts, i1, ErrorCode::InvalidParameterType) {
                Err(e) => Err(e),
                Ok((pt, j)) => {
                    let p = ParamV { name: nt.text, type_: pt };
                    if sp_next_matches(ts, j, TokenType::RightParen) {
                        Ok((seq![p], j))
                    } else {
                        match sp_expect(ts, j, TokenType::Comma) {
                            Err(e) => Err(e),
                            Ok((_c, j1)) => match sp_params(ts, step_idx(ts, i, j1)) {
                                Err(e) => Err(e),
                                Ok((rest, j2)) => Ok((seq![p] + rest, j2)),
                            },
                        }
                    }
                },
            },
        }
    }
}

/// The statements of a block image; blocks always carry a `Block` variant.
pub open spec fn block_stmts(body: StmtV) -> Seq<StmtV> {
    match body.statement {
        StmtTypeV::Block(ss) => ss,
        _ => Seq::empty(),
    }
}

/// Function statement: `function` Identifier `(` parameters `)`, optional
/// `: ` return type (unmapped name is `InvalidReturnType`), then a block
/// body. Span runs from `function` to the body's closing brace.
pub open spec fn sp_function(ts: Seq<TokenV>, i: int) -> Result<(StmtV, int), ErrV>
    decreases rem(ts, i), 4int,
{
    match sp_expect(ts, i, TokenType::Function) {
        Err(e) => Err(e),
        Ok((ft, i1)) => match sp_expect(ts, i1, TokenType::Identifier) {
            Err(e) => Err(e),
            Ok((nt, i2)) => match sp_expect(ts, i2, TokenType::LeftParen) {
                Err(e) => Err(e),
                Ok((_lp, i3)) => match sp_params(ts, i3) {
                    Err(e) => Err(e),
                    Ok((params, j)) => match sp_expect(ts, j, TokenType::RightParen) {
                        Err(e) => Err(e),
                        Ok((_rp, j1)) => match sp_type_annotation(
                            ts,
                            j1,
                            ErrorCode::InvalidReturnType,
                        ) {
                            Err(e) => Err(e),
                            Ok((rt, j2)) => match sp_block(ts, step_idx(ts, i, j2)) {
                                Err(e) => Err(e),
                                Ok((body, j3)) => Ok(
                                    (
                                        StmtV {
                                            statement: StmtTypeV::Function(
                                                FunctionV {
                                                    name: nt.text,
                                                    parameters: params,
                                                    return_type: rt,
                                                    body: block_stmts(body),
                                                },
                                            ),
                                            span: SpanV { start: ft.start, end: body.span.end },
                                        },
                                        j3,
                                    ),
                                ),
                            },
                        },
                    },
                },
            },
        },
    }
}

/// Return statement: `return`, an optional expression if the next token is
/// not `;`, then `;`. Span runs from `return` to the semicolon.
pub open spec fn sp_return(ts: Seq<TokenV>, i: int) -> Result<(StmtV, int), ErrV> {
    match sp_expect(ts, i, TokenType::Return) {
        Err(e) => Err(e),
        Ok((rt, i1)) => {
            if sp_next_matches(ts, i1, TokenType::Semicolon) {
                match sp_expect(ts, i1, TokenType::Semicolon) {
                    Err(e) => Err(e),
                    Ok((sc, i2)) => Ok(
                        (
                            StmtV {
                                statement: StmtTypeV::Return(ReturnV { value: None }),
                                span: SpanV { start: rt.start, end: sc.end },
                            },
                            i2,
                        ),
                    ),
                }
            } else {
                match sp_expr(ts, i1) {
                    Err(e) => Err(e),
                    Ok((v, j)) => match sp_expect(ts, j, TokenType::Semicolon) {
                        Err(e) => Err(e),
                        Ok((sc, j1)) => Ok(
                            (
                                StmtV {
                                    statement: StmtTypeV::Return(ReturnV { value: Some(v) }),
                                    span: SpanV { start: rt.start, end: sc.end },
                                },
                                j1,
                            ),
                        ),
                    },
                }
            }
        },
    }
}

/// `break ;` — recognized syntactically, producing an `Unknown` placeholder
/// spanning from the keyword to the semicolon.
pub open spec fn sp_break(ts: Seq<TokenV>, i: int) -> Result<(StmtV, int), ErrV> {
    match sp_expect(ts, i, TokenType::Break) {
        Err(e) => Err(e),
        Ok((bt, i1)) => match sp_expect(ts, i1, TokenType::Semicolon) {
            Err(e) => Err(e),
            Ok((sc, i2)) => Ok(
                (
                    StmtV {
                        statement: StmtTypeV::Unknown,
                        span: SpanV { start: bt.start, end: sc.end },
                    },
                    i2,
                ),
            ),
        },
    }
}

/// `continue ;` — recognized syntactically, producing an `Unknown`
/// placeholder spanning from the keyword to the semicolon.
pub open spec fn sp_continue(ts: Seq<TokenV>, i: int) -> Result<(StmtV, int), ErrV> {
    match sp_expect(ts, i, TokenType::Continue) {
        Err(e) => Err(e),
        Ok((ct, i1)) => match sp_expect(ts, i1, TokenType::Semicolon) {
            Err(e) => Err(e),
            Ok((sc, i2)) => Ok(
                (
                    StmtV {
                        statement: StmtTypeV::Unknown,
                        span: SpanV { start: ct.start, end: sc.end },
                    },
                    i2,
                ),
            ),
        },
    }
}

/// An optional expression, absent when the next token is `stop`.
pub open spec fn sp_opt_expr_unless(ts: Seq<TokenV>, j: int, stop: TokenType) -> Result<
    (Option<ExprV>, int),
    ErrV,
> {
    if sp_next_matches(ts, j, stop) {
        Ok((None, j))
    } else {
        match sp_expr(ts, j) {
            Err(e) => Err(e),
            Ok((e, j2)) => Ok((Some(e), j2)),
        }
    }
}

/// `while` condition block — recognized syntactically, producing an `Unknown`
/// placeholder spanning from the keyword to the body's closing brace.
pub open spec fn sp_while(ts: Seq<TokenV>, i: int) -> Result<(StmtV, int), ErrV>
    decreases rem(ts, i), 4int,
{
    match sp_expect(ts, i, TokenType::While) {
        Err(e) => Err(e),
        Ok((wt, i1)) => match sp_expr(ts, i1) {
            Err(e) => Err(e),
            Ok((_c, j)) => match sp_block(ts, step_idx(ts, i, j)) {
                Err(e) => Err(e),
                Ok((b, j1)) => Ok(
                    (
                        StmtV {
                            statement: StmtTypeV::Unknown,
                            span: SpanV { start: wt.start, end: b.span.end },
                        },
                        j1,
                    ),
                ),
            },
        },
    }
}

/// `if` condition block, with an optional `else` block — recognized
/// syntactically, producing an `Unknown` placeholder.
pub open spec fn sp_if(ts: Seq<TokenV>, i: int) -> Result<(StmtV, int), ErrV>
    decreases rem(ts, i), 4int,
{
    match sp_expect(ts, i, TokenType::If) {
        Err(e) => Err(e),
        Ok((it, i1)) => match sp_expr(ts, i1) {
            Err(e) => Err(e),
            Ok((_c, j)) => match sp_block(ts, step_idx(ts, i, j)) {
                Err(e) => Err(e),
                Ok((b, j1)) => {
                    if sp_next_matches(ts, j1, TokenType::Else) {
                        match sp_expect(ts, j1, TokenType::Else) {
                            Err(e) => Err(e),
                            Ok((_e, j2)) => match sp_block(ts, step_idx(ts, i, j2)) {
                                Err(e) => Err(e),
                                Ok((eb, j3)) => Ok(
                                    (
                                        StmtV {
                                            statement: StmtTypeV::Unknown,
                                            span: SpanV { start: it.start, end: eb.span.end },
                                        },
                                        j3,
                                    ),
                                ),
                            },
                        }
                    } else {
                        Ok(
                            (
                                StmtV {
                                    statement: StmtTypeV::Unknown,
                                    span: SpanV { start: it.start, end: b.span.end },
                                },
                                j1,
                            ),
                        )
                    }
                },
            },
        },
    }
}

/// `for [init]; [cond]; [incr] { body }` — recognized syntactically,
/// producing an `Unknown` placeholder spanning from the keyword to the
/// body's closing brace.
pub open spec fn sp_for(ts: Seq<TokenV>, i: int) -> Result<(StmtV, int), ErrV>
    decreases rem(ts, i), 4int,
{
    match sp_expect(ts, i, TokenType::For) {
        Err(e) => Err(e),
        Ok((ft, i1)) => match sp_opt_expr_unless(ts, i1, TokenType::Semicolon) {
            Err(e) => Err(e),
            Ok((_init, ja)) => match sp_expect(ts, ja, TokenType::Semicolon) {
                Err(e) => Err(e),
                Ok((_s1, ja1)) => match sp_opt_expr_unless(ts, ja1, TokenType::Semicolon) {
                    Err(e) => Err(e),
                    Ok((_cond, jb)) => match sp_expect(ts, jb, TokenType::Semicolon) {
                        Err(e) => Err(e),
                        Ok((_s2, jb1)) => match sp_opt_expr_unless(ts, jb1, TokenType::LeftBrace) {
                            Err(e) => Err(e),
                            Ok((_incr, jc)) => match sp_block(ts, step_idx(ts, i, jc)) {
                                Err(e) => Err(e),
                                Ok((b, j)) => Ok(
                                    (
                                        StmtV {
                                            statement: StmtTypeV::Unknown,
                                            span: SpanV { start: ft.start, end: b.span.end },
                                        },
                                        j,
                                    ),
                                ),
                            },
                        },
                    },
                },
            },
        },
    }
}

/// Intrinsic statement: `@` Identifier `(` arguments `)` `;` — a
/// compiler-builtin call. Span runs from `@` to the semicolon.
pub open spec fn sp_intrinsic(ts: Seq<TokenV>, i: int) -> Result<(StmtV, int), ErrV> {
    match sp_expect(ts, i, TokenType::At) {
        Err(e) => Err(e),
        Ok((at, i1)) => match sp_expect(ts, i1, TokenType::Identifier) {
            Err(e) => Err(e),
            Ok((nt, i2)) => match sp_expect(ts, i2, TokenType::LeftParen) {
                Err(e) => Err(e),
                Ok((_lp, i3)) => match sp_args(ts, i3) {
                    Err(e) => Err(e),
                    Ok((args, j)) => match sp_expect(ts, j, TokenType::RightParen) {
                        Err(e) => Err(e),
                        Ok((_rp, j1)) => match sp_expect(ts, j1, TokenType::Semicolon) {
                            Err(e) => Err(e),
                            Ok((sc, j2)) => Ok(
                                (
                                    StmtV {
                                        statement: StmtTypeV::Intrinsic(
                                            IntrinsicV { name: nt.text, arguments: args },
                                        ),
                                        span: SpanV { start: at.start, end: sc.end },
                                    },
                                    j2,
                                ),
                            ),
                        },
                    },
                },
            },
        },
    }
}

/// A bare expression statement: an expression followed by `;`, producing an
/// `Unknown` placeholder spanning the expression and the semicolon.
pub open spec fn sp_expr_stmt(ts: Seq<TokenV>, i: int) -> Result<(StmtV, int), ErrV> {
    match sp_expr(ts, i) {
        Err(e) => Err(e),
        Ok((e, j)) => match sp_expect(ts, j, TokenType::Semicolon) {
            Err(er) => Err(er),
            Ok((sc, j1)) => Ok(
                (
                    StmtV {
                        statement: StmtTypeV::Unknown,
                        span: SpanV { start: e.span.start, end: sc.end },
                    },
                    j1,
                ),
            ),
        },
    }
}

/// Block: `{` statements `}`. Span runs from the opening to the closing
/// brace.
pub open spec fn sp_block(ts: Seq<TokenV>, i: int) -> Result<(StmtV, int), ErrV>
    decreases rem(ts, i), 3int,
{
    match sp_expect(ts, i, TokenType::LeftBrace) {
        Err(e) => Err(e),
        Ok((lb, i1)) => match sp_block_items(ts, i1) {
            Err(e) => Err(e),
            Ok((ss, j)) => match sp_expect(ts, j, TokenType::RightBrace) {
                Err(e) => Err(e),
                Ok((rb, j1)) => Ok(
                    (
                        StmtV {
                            statement: StmtTypeV::Block(ss),
                            span: SpanV { start: lb.start, end: rb.end },
                        },
                        j1,
                    ),
                ),
            },
        },
    }
}

/// The statements of a block, stopped (not consumed) by a closing brace.
pub open spec fn sp_block_items(ts: Seq<TokenV>, i: int) -> Result<(Seq<StmtV>, int), ErrV>
    decreases rem(ts, i), 7int,
{
    if sp_next_matches(ts, i, TokenType::RightBrace) {
        Ok((Seq::empty(), i))
    } else if i < 0 || i >= ts.len() {
        Err(ErrV { code: ErrorCode::NoTokensLeft, token: invalid_token_v() })
    } else {
        match sp_stmt(ts, i) {
            Err(e) => Err(e),
            Ok((sv, j)) => match sp_block_items(ts, step_idx(ts, i, j)) {
                Err(e) => Err(e),
                Ok((rest, j2)) => Ok((seq![sv] + rest, j2)),
            },
        }
    }
}

/// Statement dispatch for everything that is not `let` or `function`.
pub open spec fn sp_statement(ts: Seq<TokenV>, i: int) -> Result<(StmtV, int), ErrV>
    decreases rem(ts, i), 5int,
{
    match sp_peek(ts, i) {
        None => Err(ErrV { code: ErrorCode::NoTokensLeft, token: invalid_token_v() }),
        Some(t) => match t.type_ {
            TokenType::For => sp_for(ts, i),
            TokenType::If => sp_if(ts, i),
            TokenType::Return => sp_return(ts, i),
            TokenType::Break => sp_break(ts, i),
            TokenType::Continue => sp_continue(ts, i),
            TokenType::While => sp_while(ts, i),
            TokenType::LeftBrace => sp_block(ts, i),
            TokenType::At => sp_intrinsic(ts, i),
            _ => sp_expr_stmt(ts, i),
        },
    }
}

/// Entry dispatch on the next token's kind; no token left where a statement
/// is expected fails with `NoTokensLeft`.
pub open spec fn sp_stmt(ts: Seq<TokenV>, i: int) -> Result<(StmtV, int), ErrV>
    decreases rem(ts, i), 6int,
{
    match sp_peek(ts, i) {
        None => Err(ErrV { code: ErrorCode::NoTokensLeft, token: invalid_token_v() }),
        Some(t) => match t.type_ {
            TokenType::Let => sp_let(ts, i),
            TokenType::Function => sp_function(ts, i),
            _ => sp_statement(ts, i),
        },
    }
}

/// What every statement-parsing function ensures: the stream's tokens are
/// untouched, and the result and new cursor position are exactly what the
/// specification grammar says — the parsed statement on success (having
/// consumed at least one token), the specified diagnostic on failure.
pub open spec fn stmt_result_matches(
    pre: TokenStream,
    post: TokenStream,
    r: CompilerResult<(StatementType, Span)>,
    sp: Result<(StmtV, int), ErrV>,
) -> bool {
    &&& post.wf()
    &&& post.toks() == pre.toks()
    &&& pre.pos <= post.pos
    &&& match sp {
        Ok(p) => r matches Ok(s) && spanned_view(s) == p.0 && post.pos == p.1 && pre.pos < p.1,
        Err(ev) => r matches Err(e) && e@ == ev,
    }
}


// ---------------------------------------------------------------------------
// The executable statement parser
// ---------------------------------------------------------------------------

/// The loop invariant of the block-items parser: finishing the parse from
/// index `i` and prepending the statements accumulated so far gives exactly
/// the item list parsed from `k0`.
pub open spec fn sp_items_cont(ts: Seq<TokenV>, k0: int, acc: Seq<StmtV>, i: int) -> bool {
    match (sp_block_items(ts, i), sp_block_items(ts, k0)) {
        (Ok(p), Ok(q)) => q.0 == acc + p.0 && q.1 == p.1,
        (Err(e), Err(e2)) => e == e2,
        _ => false,
    }
}

/// The loop invariant of the parameter-list parser.
pub open spec fn sp_params_cont(ts: Seq<TokenV>, k0: int, acc: Seq<ParamV>, i: int) -> bool {
    match (sp_params(ts, i), sp_params(ts, k0)) {
        (Ok(p), Ok(q)) => q.0 == acc + p.0 && q.1 == p.1,
        (Err(e), Err(e2)) => e == e2,
        _ => false,
    }
}

impl Statement {
    /// Entry dispatch on the next token's kind.
    pub fn parse(tokens: &mut TokenStream) -> (r: CompilerResult<SpannedStatement>)
        requires
            old(tokens).wf(),
        ensures
            stmt_result_matches(
                *old(tokens),
                *final(tokens),
                r,
                sp_stmt(old(tokens).toks(), old(tokens).pos as int),
            ),
        decreases rem(old(tokens).toks(), old(tokens).pos as int), 6int,
    {
        match tokens.peek_kind() {
            Some(TokenType::Let) => Statement::let_(tokens),
            Some(TokenType::Function) => Statement::function(tokens),
            Some(_) => Statement::statement(tokens),
            None => Err(CompilerError {
                error_code: ErrorCode::NoTokensLeft,
                error_message: String::from_str("Expected start of statement, got None"),
                span_message: String::new(),
                token: Token::invalid(),
                help: Some(
                    String::from_str("Expected a statement, but reached the end of the file"),
                ),
                info: None,
            }),
        }
    }

    /// Let statement: `let` Identifier, optional `=` expression, `;`.
    pub fn let_(tokens: &mut TokenStream) -> (r: CompilerResult<SpannedStatement>)
        requires
            old(tokens).wf(),
        ensures
            stmt_result_matches(
                *old(tokens),
                *final(tokens),
                r,
                sp_let(old(tokens).toks(), old(tokens).pos as int),
            ),
    {
        let start = tokens.unshift_expect(TokenType::Let)?;
        let name_token = tokens.unshift_expect(TokenType::Identifier)?;
        let mut value: Option<Expression> = None;
        if tokens.next_matches(TokenType::Equals) {
            tokens.unshift_expect(TokenType::Equals)?;
            value = Some(Expression::parse(tokens)?);
        }
        let end = tokens.unshift_expect(TokenType::Semicolon)?;
        Ok(
            (
                StatementType::Let(LetStatement { name: name_token.value, value }),
                Span { start: start.span.start, end: end.span.end },
            ),
        )
    }

    /// Function statement: `function` Identifier `(` parameters `)`,
    /// optional `:` return type, then a block body.
    #[verifier::rlimit(50)]
    pub fn function(tokens: &mut TokenStream) -> (r: CompilerResult<SpannedStatement>)
        requires
            old(tokens).wf(),
        ensures
            stmt_result_matches(
                *old(tokens),
                *final(tokens),
                r,
                sp_function(old(tokens).toks(), old(tokens).pos as int),
            ),
        decreases rem(old(tokens).toks(), old(tokens).pos as int), 4int,
    {
        let start = tokens.unshift_expect(TokenType::Function)?;
        let name_token = tokens.unshift_expect(TokenType::Identifier)?;
        tokens.unshift_expect(TokenType::LeftParen)?;
        let parameters = FunctionStatement::parse_parameters(tokens)?;
        tokens.unshift_expect(TokenType::RightParen)?;
        let mut return_type = ParameterType::Unknown;
        if tokens.next_matches(TokenType::Colon) {
            tokens.unshift_expect(TokenType::Colon)?;
            let type_token = tokens.unshift_expect(TokenType::Identifier)?;
            return_type = param_type_from_name(type_token.value.as_str());
            if return_type == ParameterType::Unknown {
                let message = String::from_str("Invalid return type: got '").concat(
                    type_token.value.as_str(),
                ).concat("'");
                return Err(CompilerError {
                    error_code: ErrorCode::InvalidReturnType,
                    error_message: message,
                    span_message: String::new(),
                    token: type_token,
                    help: Some(String::from_str("Expected one of: int, bool, string")),
                    info: None,
                });
            }
        }
        let body = Statement::block(tokens)?;
        let body_span = body.1;
        let statements = match body.0 {
            StatementType::Block(b) => b.statements,
            _ => {
                proof {
                    assert(false);
                }
                Vec::new()
            },
        };
        let result = (
            StatementType::Function(
                FunctionStatement {
                    name: name_token.value,
                    parameters,
                    return_type,
                    body: statements,
                },
            ),
            Span { start: start.span.start, end: body_span.end },
        );
        proof {
            match stmt_type_view(result.0) {
                StmtTypeV::Function(fv) => {
                    assert(fv.body =~= stmts_view(result.0->Function_0.body@));
                },
                _ => {},
            }
        }
        Ok(result)
    }

    /// Dispatch for everything that is not `let` or `function`.
    pub fn statement(tokens: &mut TokenStream) -> (r: CompilerResult<SpannedStatement>)
        requires
            old(tokens).wf(),
        ensures
            stmt_result_matches(
                *old(tokens),
                *final(tokens),
                r,
                sp_statement(old(tokens).toks(), old(tokens).pos as int),
            ),
        decreases rem(old(tokens).toks(), old(tokens).pos as int), 5int,
    {
        match tokens.peek_kind() {
            Some(TokenType::For) => Statement::for_(tokens),
            Some(TokenType::If) => Statement::if_(tokens),
            Some(TokenType::Return) => Statement::return_(tokens),
            Some(TokenType::Break) => Statement::break_(tokens),
            Some(TokenType::Continue) => Statement::continue_(tokens),
            Some(TokenType::While) => Statement::while_(tokens),
            Some(TokenType::LeftBrace) => Statement::block(tokens),
            Some(TokenType::At) => Statement::intrinsic(tokens),
            Some(_) => Statement::expression(tokens),
            None => Err(CompilerError {
                error_code: ErrorCode::NoTokensLeft,
                error_message: String::from_str("Expected start of statement, got None"),
                span_message: String::new(),
                token: Token::invalid(),
                help: Some(
                    String::from_str("Expected a statement, but reached the end of the file"),
                ),
                info: None,
            }),
        }
    }

    /// `for [init]; [cond]; [incr] { body }`, parsed for cursor correctness;
    /// the payload is discarded pending a richer control-flow AST.
    #[verifier::rlimit(80)]
    pub fn for_(tokens: &mut TokenStream) -> (r: CompilerResult<SpannedStatement>)
        requires
            old(tokens).wf(),
        ensures
            stmt_result_matches(
                *old(tokens),
                *final(tokens),
                r,
                sp_for(old(tokens).toks(), old(tokens).pos as int),
            ),
        decreases rem(old(tokens).toks(), old(tokens).pos as int), 4int,
    {
        let start = tokens.unshift_expect(TokenType::For)?;
        if !tokens.next_matches(TokenType::Semicolon) {
            let _initializer = Expression::parse(tokens)?;
        }
        tokens.unshift_expect(TokenType::Semicolon)?;
        if !tokens.next_matches(TokenType::Semicolon) {
            let _condition = Expression::parse(tokens)?;
        }
        tokens.unshift_expect(TokenType::Semicolon)?;
        if !tokens.next_matches(TokenType::LeftBrace) {
            let _increment = Expression::parse(tokens)?;
        }
        let body = Statement::block(tokens)?;
        Ok((StatementType::Unknown, Span { start: start.span.start, end: body.1.end }))
    }

    /// `if` condition block, optional `else` block, parsed for cursor
    /// correctness; the payload is discarded pending a richer control-flow
    /// AST.
    pub fn if_(tokens: &mut TokenStream) -> (r: CompilerResult<SpannedStatement>)
        requires
            old(tokens).wf(),
        ensures
            stmt_result_matches(
                *old(tokens),
                *final(tokens),
                r,
                sp_if(old(tokens).toks(), old(tokens).pos as int),
            ),
        decreases rem(old(tokens).toks(), old(tokens).pos as int), 4int,
    {
        let start = tokens.unshift_expect(TokenType::If)?;
        let _condition = Expression::parse(tokens)?;
        let body = Statement::block(tokens)?;
        if tokens.next_matches(TokenType::Else) {
            tokens.unshift_expect(TokenType::Else)?;
            let else_body = Statement::block(tokens)?;
            Ok((StatementType::Unknown, Span { start: start.span.start, end: else_body.1.end }))
        } else {
            Ok((StatementType::Unknown, Span { start: start.span.start, end: body.1.end }))
        }
    }

    /// Return statement: `return`, optional expression, `;`.
    pub fn return_(tokens: &mut TokenStream) -> (r: CompilerResult<SpannedStatement>)
        requires
            old(tokens).wf(),
        ensures
            stmt_result_matches(
                *old(tokens),
                *final(tokens),
                r,
                sp_return(old(tokens).toks(), old(tokens).pos as int),
            ),
    {
        let start = tokens.unshift_expect(TokenType::Return)?;
        let mut value: Option<Expression> = None;
        if !tokens.next_matches(TokenType::Semicolon) {
            value = Some(Expression::parse(tokens)?);
        }
        let end = tokens.unshift_expect(TokenType::Semicolon)?;
        Ok(
            (
                StatementType::Return(ReturnStatement { value }),
                Span { start: start.span.start, end: end.span.end },
            ),
        )
    }

    /// `break ;`, parsed for cursor correctness.
    pub fn break_(tokens: &mut TokenStream) -> (r: CompilerResult<SpannedStatement>)
        requires
            old(tokens).wf(),
        ensures
            stmt_result_matches(
                *old(tokens),
                *final(tokens),
                r,
                sp_break(old(tokens).toks(), old(tokens).pos as int),
            ),
    {
        let start = tokens.unshift_expect(TokenType::Break)?;
        let end = tokens.unshift_expect(TokenType::Semicolon)?;
        Ok((StatementType::Unknown, Span { start: start.span.start, end: end.span.end }))
    }

    /// `continue ;`, parsed for cursor correctness.
    pub fn continue_(tokens: &mut TokenStream) -> (r: CompilerResult<SpannedStatement>)
        requires
            old(tokens).wf(),
        ensures
            stmt_result_matches(
                *old(tokens),
                *final(tokens),
                r,
                sp_continue(old(tokens).toks(), old(tokens).pos as int),
            ),
    {
        let start = tokens.unshift_expect(TokenType::Continue)?;
        let end = tokens.unshift_expect(TokenType::Semicolon)?;
        Ok((StatementType::Unknown, Span { start: start.span.start, end: end.span.end }))
    }

    /// `while` condition block, parsed for cursor correctness.
    pub fn while_(tokens: &mut TokenStream) -> (r: CompilerResult<SpannedStatement>)
        requires
            old(tokens).wf(),
        ensures
            stmt_result_matches(
                *old(tokens),
                *final(tokens),
                r,
                sp_while(old(tokens).toks(), old(tokens).pos as int),
            ),
        decreases rem(old(tokens).toks(), old(tokens).pos as int), 4int,
    {
        let start = tokens.unshift_expect(TokenType::While)?;
        let _condition = Expression::parse(tokens)?;
        let body = Statement::block(tokens)?;
        Ok((StatementType::Unknown, Span { start: start.span.start, end: body.1.end }))
    }

    /// Block: `{` statements `}`.
    #[verifier::rlimit(50)]
    pub fn block(tokens: &mut TokenStream) -> (r: CompilerResult<SpannedStatement>)
        requires
            old(tokens).wf(),
        ensures
            stmt_result_matches(
                *old(tokens),
                *final(tokens),
                r,
                sp_block(old(tokens).toks(), old(tokens).pos as int),
            ),
        decreases rem(old(tokens).toks(), old(tokens).pos as int), 3int,
    {
        let ghost ts = old(tokens).toks();
        let start = tokens.unshift_expect(TokenType::LeftBrace)?;
        let ghost k0 = tokens.pos as int;
        let mut statements: Vec<SpannedStatement> = Vec::new();
        proof {
            assert(stmts_view(statements@) =~= Seq::<StmtV>::empty());
        }
        while !tokens.next_matches(TokenType::RightBrace)
            invariant
                tokens.wf(),
                tokens.toks() == ts,
                ts == old(tokens).toks(),
                old(tokens).pos < tokens.pos <= ts.len(),
                k0 <= tokens.pos,
                sp_block(ts, old(tokens).pos as int) == (match sp_block_items(ts, k0) {
                    Ok(p) => match sp_expect(ts, p.1, TokenType::RightBrace) {
                        Ok(rb) => Ok::<(StmtV, int), ErrV>(
                            (
                                StmtV {
                                    statement: StmtTypeV::Block(p.0),
                                    span: SpanV { start: ts[old(tokens).pos as int].start, end: rb.0.end },
                                },
                                rb.1,
                            ),
                        ),
                        Err(e) => Err(e),
                    },
                    Err(e) => Err::<(StmtV, int), ErrV>(e),
                }),
                sp_items_cont(ts, k0, stmts_view(statements@), tokens.pos as int),
            decreases ts.len() - tokens.pos,
        {
            let ghost p0 = tokens.pos as int;
            let ghost acc = stmts_view(statements@);
            let s = match Statement::parse(tokens) {
                Ok(x) => x,
                Err(er) => {
                    proof {
                        assert(sp_block_items(ts, p0) matches Err(ev) && ev == er@);
                    }
                    return Err(er);
                },
            };
            let ghost sv = spanned_view(s);
            statements.push(s);
            proof {
                assert(stmts_view(statements@) =~= acc + seq![sv]);
                assert(step_idx(ts, p0, tokens.pos as int) == tokens.pos as int);
                match sp_block_items(ts, tokens.pos as int) {
                    Ok(p) => {
                        assert((acc + seq![sv]) + p.0 =~= acc + (seq![sv] + p.0));
                    },
                    Err(_) => {},
                }
                assert(sp_items_cont(ts, k0, stmts_view(statements@), tokens.pos as int));
            }
        }
        proof {
            assert(stmts_view(statements@) + Seq::<StmtV>::empty() =~= stmts_view(statements@));
        }
        let end = tokens.unshift_expect(TokenType::RightBrace)?;
        let result = (
            StatementType::Block(BlockStatement { statements }),
            Span { start: start.span.start, end: end.span.end },
        );
        proof {
            match stmt_type_view(result.0) {
                StmtTypeV::Block(ss2) => {
                    assert(ss2 =~= stmts_view(result.0->Block_0.statements@));
                },
                _ => {},
            }
        }
        Ok(result)
    }

    /// A bare expression statement: an expression followed by `;`.
    pub fn expression(tokens: &mut TokenStream) -> (r: CompilerResult<SpannedStatement>)
        requires
            old(tokens).wf(),
        ensures
            stmt_result_matches(
                *old(tokens),
                *final(tokens),
                r,
                sp_expr_stmt(old(tokens).toks(), old(tokens).pos as int),
            ),
    {
        let expr = Expression::parse(tokens)?;
        let end = tokens.unshift_expect(TokenType::Semicolon)?;
        Ok((StatementType::Unknown, Span { start: expr.span.start, end: end.span.end }))
    }

    /// Intrinsic statement: `@` Identifier `(` arguments `)` `;`.
    pub fn intrinsic(tokens: &mut TokenStream) -> (r: CompilerResult<SpannedStatement>)
        requires
            old(tokens).wf(),
        ensures
            stmt_result_matches(
                *old(tokens),
                *final(tokens),
                r,
                sp_intrinsic(old(tokens).toks(), old(tokens).pos as int),
            ),
    {
        let start = tokens.unshift_expect(TokenType::At)?;
        let name_token = tokens.unshift_expect(TokenType::Identifier)?;
        tokens.unshift_expect(TokenType::LeftParen)?;
        let arguments = Expression::parse_args(tokens)?;
        tokens.unshift_expect(TokenType::RightParen)?;
        let end = tokens.unshift_expect(TokenType::Semicolon)?;
        let result = (
            StatementType::Intrinsic(IntrinsicStatement { name: name_token.value, arguments }),
            Span { start: start.span.start, end: end.span.end },
        );
        Ok(result)
    }
}

impl FunctionStatement {
    /// Parse a function statement; the same grammar as `Statement::function`.
    pub fn parse(tokens: &mut TokenStream) -> (r: CompilerResult<SpannedStatement>)
        requires
            old(tokens).wf(),
        ensures
            stmt_result_matches(
                *old(tokens),
                *final(tokens),
                r,
                sp_function(old(tokens).toks(), old(tokens).pos as int),
            ),
    {
        Statement::function(tokens)
    }

    /// A comma-separated, possibly-empty parameter list, stopped by `)`.
    #[verifier::rlimit(50)]
    pub fn parse_parameters(tokens: &mut TokenStream) -> (r: CompilerResult<Vec<Parameter>>)
        requires
            old(tokens).wf(),
        ensures
            final(tokens).wf(),
            final(tokens).toks() == old(tokens).toks(),
            old(tokens).pos <= final(tokens).pos <= final(tokens).toks().len(),
            match sp_params(old(tokens).toks(), old(tokens).pos as int) {
                Ok(p) => r matches Ok(ps) && params_view(ps@) == p.0 && final(tokens).pos == p.1,
                Err(ev) => r matches Err(e) && e@ == ev,
            },
    {
        let ghost ts = old(tokens).toks();
        let ghost k0 = old(tokens).pos as int;
        let mut parameters: Vec<Parameter> = Vec::new();
        proof {
            assert(params_view(parameters@) =~= Seq::<ParamV>::empty());
        }
        while !tokens.next_matches(TokenType::RightParen)
            invariant
                tokens.wf(),
                tokens.toks() == ts,
                ts == old(tokens).toks(),
                k0 == old(tokens).pos as int,
                k0 <= tokens.pos <= ts.len(),
                sp_params_cont(ts, k0, params_view(parameters@), tokens.pos as int),
            decreases ts.len() - tokens.pos,
        {
            let ghost p0 = tokens.pos as int;
            let ghost acc = params_view(parameters@);
            let name_token = match tokens.unshift_expect(TokenType::Identifier) {
                Ok(x) => x,
                Err(er) => {
                    proof {
                        assert(sp_params(ts, p0) matches Err(ev) && ev == er@);
                    }
                    return Err(er);
                },
            };
            let mut type_: ParameterType = ParameterType::Unknown;
            if tokens.next_matches(TokenType::Colon) {
                tokens.unshift_expect(TokenType::Colon)?;
                let type_token = match tokens.unshift_expect(TokenType::Identifier) {
                    Ok(x) => x,
                    Err(er) => {
                        proof {
                            assert(sp_params(ts, p0) matches Err(ev) && ev == er@);
                        }
                        return Err(er);
                    },
                };
                type_ = param_type_from_name(type_token.value.as_str());
                if type_ == ParameterType::Unknown {
                    let message = String::from_str("Invalid parameter type: got '").concat(
                        type_token.value.as_str(),
                    ).concat("'");
                    proof {
                        assert(sp_params(ts, p0) matches Err(ev) && ev.code
                            == ErrorCode::InvalidParameterType && ev.token == type_token@);
                    }
                    return Err(CompilerError {
                        error_code: ErrorCode::InvalidParameterType,
                        error_message: message,
                        span_message: String::new(),
                        token: type_token,
                        help: Some(String::from_str("Expected one of: int, bool, string")),
                        info: None,
                    });
                }
            }
            let ghost pv = ParamV { name: name_token.value@, type_ };
            parameters.push(Parameter { name: name_token.value, type_ });
            proof {
                assert(params_view(parameters@) =~= acc + seq![pv]);
            }
            let ghost j = tokens.pos as int;
            if !tokens.next_matches(TokenType::RightParen) {
                match tokens.unshift_expect(TokenType::Comma) {
                    Ok(_c) => {
                        proof {
                            assert(step_idx(ts, p0, j + 1) == j + 1);
                            match sp_params(ts, tokens.pos as int) {
                                Ok(p) => {
                                    assert((acc + seq![pv]) + p.0 =~= acc + (seq![pv] + p.0));
                                },
                                Err(_) => {},
                            }
                            assert(sp_params_cont(ts, k0, params_view(parameters@), tokens.pos as int));
                        }
                    },
                    Err(er) => {
                        proof {
                            assert(sp_params(ts, p0) matches Err(ev2) && ev2 == er@);
                        }
                        return Err(er);
                    },
                }
            } else {
                proof {
                    assert((acc + seq![pv]) + Seq::<ParamV>::empty() =~= acc + seq![pv]);
                    assert(sp_params(ts, j) == Ok::<(Seq<ParamV>, int), ErrV>(
                        (Seq::<ParamV>::empty(), j),
                    ));
                    assert(sp_params_cont(ts, k0, params_view(parameters@), tokens.pos as int));
                }
            }
        }
        proof {
            assert(params_view(parameters@) + Seq::<ParamV>::empty() =~= params_view(parameters@));
        }
        Ok(parameters)
    }
}

impl LetStatement {
    /// Parse a let statement; the same grammar as `Statement::let_`.
    pub fn parse(tokens: &mut TokenStream) -> (r: CompilerResult<SpannedStatement>)
        requires
            old(tokens).wf(),
        ensures
            stmt_result_matches(
                *old(tokens),
                *final(tokens),
                r,
                sp_let(old(tokens).toks(), old(tokens).pos as int),
            ),
    {
        Statement::let_(tokens)
    }
}

impl ReturnStatement {
    /// Parse a return statement; the same grammar as `Statement::return_`.
    pub fn parse(tokens: &mut TokenStream) -> (r: CompilerResult<SpannedStatement>)
        requires
            old(tokens).wf(),
        ensures
            stmt_result_matches(
                *old(tokens),
                *final(tokens),
                r,
                sp_return(old(tokens).toks(), old(tokens).pos as int),
            ),
    {
        Statement::return_(tokens)
    }
}

} // verus!
