//! Expressions: the AST nodes and the operator-precedence
//! (precedence-climbing) expression parser, each level left-associative.
//! Grammar, lowest to highest precedence: assignment -> logical-or ->
//! logical-and -> equality -> comparison (reserved) -> term (reserved) ->
//! factor -> unary (reserved) -> call -> primary (reserved) -> literal.

use vstd::prelude::*;
use vstd::string::StringExecFns;
use crate::error::{CompilerError, CompilerResult, ErrV, ErrorCode};
use crate::stream::{
    sp_expect, sp_expect_any, sp_next_matches, sp_next_matches_any, sp_peek, step_idx, rem,
    TokenStream,
};
use crate::token::{invalid_token_v, Span, SpanV, Token, TokenType, TokenV};

verus! {

broadcast use vstd::std_specs::vec::group_vec_axioms;

// ---------------------------------------------------------------------------
// The expression AST
// ---------------------------------------------------------------------------

#[derive(Debug, PartialEq, Eq)]
pub struct Expression {
    pub expression: ExpressionType,
    pub span: Span,
}

#[derive(Debug, PartialEq, Eq)]
pub enum ExpressionType {
    Binary(BinaryExpression),
    FunctionCall(FunctionCallExpression),
    Literal(LiteralExpression),
}

#[derive(Debug, PartialEq, Eq)]
pub struct BinaryExpression {
    pub left: Box<Expression>,
    pub operator: Token,
    pub right: Box<Expression>,
}

#[derive(Debug, PartialEq, Eq)]
pub struct FunctionCallExpression {
    pub name: String,
    pub arguments: Vec<Expression>,
}

#[derive(Debug, PartialEq, Eq)]
pub struct LiteralExpression {
    pub literal: LiteralType,
    pub value: String,
}

#[derive(Debug, PartialEq, Eq, Clone, Copy, Structural)]
pub enum LiteralType {
    Unknown,
    Integer,
}

/// The literal kind a token kind maps to.
pub open spec fn lit_type_of(t: TokenType) -> LiteralType {
    if t == TokenType::IntegerLiteral {
        LiteralType::Integer
    } else {
        LiteralType::Unknown
    }
}

pub fn literal_type_of(t: TokenType) -> (r: LiteralType)
    ensures
        r == lit_type_of(t),
{
    match t {
        TokenType::IntegerLiteral => LiteralType::Integer,
        _ => LiteralType::Unknown,
    }
}

// ---------------------------------------------------------------------------
// Mathematical image of an expression
// ---------------------------------------------------------------------------

pub struct ExprV {
    pub expression: ExprTypeV,
    pub span: SpanV,
}

pub enum ExprTypeV {
    Binary(BinaryV),
    FunctionCall(CallV),
    Literal(LitV),
}

pub struct BinaryV {
    pub left: Box<ExprV>,
    pub operator: TokenV,
    pub right: Box<ExprV>,
}

pub struct CallV {
    pub name: Seq<char>,
    pub arguments: Seq<ExprV>,
}

pub struct LitV {
    pub literal: LiteralType,
    pub value: Seq<char>,
}

pub open spec fn expr_view(e: Expression) -> ExprV
    decreases e,
{
    ExprV {
        expression: match e.expression {
            ExpressionType::Binary(b) => ExprTypeV::Binary(
                BinaryV {
                    left: Box::new(expr_view(*b.left)),
                    operator: b.operator@,
                    right: Box::new(expr_view(*b.right)),
                },
            ),
            ExpressionType::FunctionCall(c) => ExprTypeV::FunctionCall(
                CallV {
                    name: c.name@,
                    arguments: Seq::new(
                        c.arguments@.len(),
                        |i: int|
                            if 0 <= i < c.arguments@.len() {
                                expr_view(c.arguments@[i])
                            } else {
                                vstd::pervasive::arbitrary()
                            },
                    ),
                },
            ),
            ExpressionType::Literal(l) => ExprTypeV::Literal(
                LitV { literal: l.literal, value: l.value@ },
            ),
        },
        span: e.span@,
    }
}

impl View for Expression {
    type V = ExprV;

    open spec fn view(&self) -> ExprV {
        expr_view(*self)
    }
}

/// The images of a sequence of expressions.
pub open spec fn exprs_view(es: Seq<Expression>) -> Seq<ExprV> {
    es.map_values(|e: Expression| expr_view(e))
}

// ---------------------------------------------------------------------------
// The specification grammar, highest precedence first
// ---------------------------------------------------------------------------

/// Literal level: exactly an integer literal or an identifier token, wrapped;
/// any other token fails with `InvalidExpression`; end of input fails with
/// `UnexpectedToken`.
pub open spec fn sp_literal(ts: Seq<TokenV>, i: int) -> Result<(ExprV, int), ErrV> {
    match sp_peek(ts, i) {
        Some(t) => {
            if t.type_ == TokenType::IntegerLiteral || t.type_ == TokenType::Identifier {
                Ok(
                    (
                        ExprV {
                            expression: ExprTypeV::Literal(
                                LitV { literal: lit_type_of(t.type_), value: t.text },
                            ),
                            span: SpanV { start: t.start, end: t.end },
                        },
                        i + 1,
                    ),
                )
            } else {
                Err(ErrV { code: ErrorCode::InvalidExpression, token: t })
            }
        },
        None => Err(ErrV { code: ErrorCode::UnexpectedToken, token: invalid_token_v() }),
    }
}

/// Call level: a literal, optionally followed by a parenthesized,
/// comma-separated, possibly-empty argument list; the callee name is the
/// literal operand's text and the span runs to the closing parenthesis.
pub open spec fn sp_call(ts: Seq<TokenV>, i: int) -> Result<(ExprV, int), ErrV>
    decreases rem(ts, i), 2int,
{
    match sp_literal(ts, i) {
        Err(e) => Err(e),
        Ok((lit, j)) => {
            if sp_next_matches(ts, j, TokenType::LeftParen) {
                match sp_args(ts, j + 1) {
                    Err(e) => Err(e),
                    Ok((args, j2)) => {
                        match sp_expect(ts, j2, TokenType::RightParen) {
                            Err(e) => Err(e),
                            Ok((rp, j3)) => {
                                let name = match lit.expression {
                                    ExprTypeV::Literal(l) => l.value,
                                    _ => Seq::empty(),
                                };
                                Ok(
                                    (
                                        ExprV {
                                            expression: ExprTypeV::FunctionCall(
                                                CallV { name, arguments: args },
                                            ),
                                            span: SpanV { start: lit.span.start, end: rp.end },
                                        },
                                        j3,
                                    ),
                                )
                            },
                        }
                    },
                }
            } else {
                Ok((lit, j))
            }
        },
    }
}

/// A comma-separated, possibly-empty expression list, stopped (not consumed)
/// by a closing parenthesis. A trailing comma before `)` is accepted.
pub open spec fn sp_args(ts: Seq<TokenV>, i: int) -> Result<(Seq<ExprV>, int), ErrV>
    decreases rem(ts, i), 15int,
{
    if sp_next_matches(ts, i, TokenType::RightParen) {
        Ok((Seq::empty(), i))
    } else if i < 0 || i >= ts.len() {
        Err(ErrV { code: ErrorCode::UnexpectedToken, token: invalid_token_v() })
    } else {
        match sp_expr(ts, i) {
            Err(e) => Err(e),
            Ok((e, j)) => {
                if sp_next_matches(ts, j, TokenType::RightParen) {
                    Ok((seq![e], j))
                } else {
                    match sp_expect(ts, j, TokenType::Comma) {
                        Err(er) => Err(er),
                        Ok((_c, j1)) => {
                            match sp_args(ts, step_idx(ts, i, j1)) {
                                Err(er) => Err(er),
                                Ok((rest, j2)) => Ok((seq![e] + rest, j2)),
                            }
                        },
                    }
                }
            },
        }
    }
}

/// One left-folding step of a binary level: while the next token is one of
/// the level's operators, consume it, parse the operand level, and fold into
/// a left-deepening `Binary` node spanning both operands.
pub open spec fn sp_binary_fold(left: ExprV, op: TokenV, right: ExprV) -> ExprV {
    ExprV {
        expression: ExprTypeV::Binary(
            BinaryV { left: Box::new(left), operator: op, right: Box::new(right) },
        ),
        span: SpanV { start: left.span.start, end: right.span.end },
    }
}

/// Factor level rest: folds `*` and `/` over call-level operands.
pub open spec fn sp_factor_rest(ts: Seq<TokenV>, i: int, left: ExprV) -> Result<
    (ExprV, int),
    ErrV,
>
    decreases rem(ts, i), 3int,
{
    if sp_next_matches_any(ts, i, seq![TokenType::Asterisk, TokenType::Slash]) {
        match sp_expect_any(ts, i, seq![TokenType::Asterisk, TokenType::Slash]) {
            Err(e) => Err(e),
            Ok((op, i1)) => {
                match sp_call(ts, i1) {
                    Err(e) => Err(e),
                    Ok((right, j)) => {
                        sp_factor_rest(ts, step_idx(ts, i, j), sp_binary_fold(left, op, right))
                    },
                }
            },
        }
    } else {
        Ok((left, i))
    }
}

/// Factor level: `*` and `/`, left-associative, over call-level operands.
pub open spec fn sp_factor(ts: Seq<TokenV>, i: int) -> Result<(ExprV, int), ErrV>
    decreases rem(ts, i), 4int,
{
    match sp_call(ts, i) {
        Err(e) => Err(e),
        Ok((e, j)) => sp_factor_rest(ts, step_idx(ts, i, j), e),
    }
}

/// Term level: reserved, currently a pass-through to factor.
pub open spec fn sp_term(ts: Seq<TokenV>, i: int) -> Result<(ExprV, int), ErrV>
    decreases rem(ts, i), 5int,
{
    sp_factor(ts, i)
}

/// Comparison level: reserved, currently a pass-through to term.
pub open spec fn sp_comparison(ts: Seq<TokenV>, i: int) -> Result<(ExprV, int), ErrV>
    decreases rem(ts, i), 6int,
{
    sp_term(ts, i)
}

/// Equality level rest: folds `==` and `!=` over comparison-level operands.
pub open spec fn sp_equality_rest(ts: Seq<TokenV>, i: int, left: ExprV) -> Result<
    (ExprV, int),
    ErrV,
>
    decreases rem(ts, i), 7int,
{
    if sp_next_matches_any(ts, i, seq![TokenType::BangEquals, TokenType::EqualsEquals]) {
        match sp_expect_any(ts, i, seq![TokenType::BangEquals, TokenType::EqualsEquals]) {
            Err(e) => Err(e),
            Ok((op, i1)) => {
                match sp_comparison(ts, i1) {
                    Err(e) => Err(e),
                    Ok((right, j)) => {
                        sp_equality_rest(ts, step_idx(ts, i, j), sp_binary_fold(left, op, right))
                    },
                }
            },
        }
    } else {
        Ok((left, i))
    }
}

/// Equality level: `==` and `!=`, left-associative.
pub open spec fn sp_equality(ts: Seq<TokenV>, i: int) -> Result<(ExprV, int), ErrV>
    decreases rem(ts, i), 8int,
{
    match sp_comparison(ts, i) {
        Err(e) => Err(e),
        Ok((e, j)) => sp_equality_rest(ts, step_idx(ts, i, j), e),
    }
}

/// Logical-and level rest: folds `&&` over equality-level operands.
pub open spec fn sp_and_rest(ts: Seq<TokenV>, i: int, left: ExprV) -> Result<(ExprV, int), ErrV>
    decreases rem(ts, i), 9int,
{
    if sp_next_matches(ts, i, TokenType::AmpersandAmpersand) {
        match sp_expect(ts, i, TokenType::AmpersandAmpersand) {
            Err(e) => Err(e),
            Ok((op, i1)) => {
                match sp_equality(ts, i1) {
                    Err(e) => Err(e),
                    Ok((right, j)) => {
                        sp_and_rest(ts, step_idx(ts, i, j), sp_binary_fold(left, op, right))
                    },
                }
            },
        }
    } else {
        Ok((left, i))
    }
}

/// Logical-and level: `&&`, left-associative.
pub open spec fn sp_and(ts: Seq<TokenV>, i: int) -> Result<(ExprV, int), ErrV>
    decreases rem(ts, i), 10int,
{
    match sp_equality(ts, i) {
        Err(e) => Err(e),
        Ok((e, j)) => sp_and_rest(ts, step_idx(ts, i, j), e),
    }
}

/// Logical-or level rest: folds `||` over and-level operands.
pub open spec fn sp_or_rest(ts: Seq<TokenV>, i: int, left: ExprV) -> Result<(ExprV, int), ErrV>
    decreases rem(ts, i), 11int,
{
    if sp_next_matches(ts, i, TokenType::PipePipe) {
        match sp_expect(ts, i, TokenType::PipePipe) {
            Err(e) => Err(e),
            Ok((op, i1)) => {
                match sp_and(ts, i1) {
                    Err(e) => Err(e),
                    Ok((right, j)) => {
                        sp_or_rest(ts, step_idx(ts, i, j), sp_binary_fold(left, op, right))
                    },
                }
            },
        }
    } else {
        Ok((left, i))
    }
}

/// Logical-or level: `||`, left-associative.
pub open spec fn sp_or(ts: Seq<TokenV>, i: int) -> Result<(ExprV, int), ErrV>
    decreases rem(ts, i), 12int,
{
    match sp_and(ts, i) {
        Err(e) => Err(e),
        Ok((e, j)) => sp_or_rest(ts, step_idx(ts, i, j), e),
    }
}

/// Assignment level: reserved, currently a pass-through to logical-or — the
/// data model has no assignment node.
pub open spec fn sp_assignment(ts: Seq<TokenV>, i: int) -> Result<(ExprV, int), ErrV>
    decreases rem(ts, i), 13int,
{
    sp_or(ts, i)
}

/// A whole expression: the lowest-precedence level.
pub open spec fn sp_expr(ts: Seq<TokenV>, i: int) -> Result<(ExprV, int), ErrV>
    decreases rem(ts, i), 14int,
{
    sp_assignment(ts, i)
}

/// Unary level: reserved, currently a pass-through to call.
pub open spec fn sp_unary(ts: Seq<TokenV>, i: int) -> Result<(ExprV, int), ErrV> {
    sp_call(ts, i)
}

/// Primary level: reserved, currently a pass-through to literal.
pub open spec fn sp_primary(ts: Seq<TokenV>, i: int) -> Result<(ExprV, int), ErrV> {
    sp_literal(ts, i)
}

/// At end of input, every expression level fails with the end-of-input
/// diagnostic of the literal level.
pub proof fn lemma_sp_expr_eof(ts: Seq<TokenV>, i: int)
    requires
        !(0 <= i < ts.len()),
    ensures
        sp_expr(ts, i) == Err::<(ExprV, int), ErrV>(
            ErrV { code: ErrorCode::UnexpectedToken, token: invalid_token_v() },
        ),
{
    let e = Err::<(ExprV, int), ErrV>(
        ErrV { code: ErrorCode::UnexpectedToken, token: invalid_token_v() },
    );
    assert(sp_literal(ts, i) == e);
    assert(sp_call(ts, i) == e);
    assert(sp_factor(ts, i) == e);
    assert(sp_term(ts, i) == e);
    assert(sp_comparison(ts, i) == e);
    assert(sp_equality(ts, i) == e);
    assert(sp_and(ts, i) == e);
    assert(sp_or(ts, i) == e);
    assert(sp_assignment(ts, i) == e);
}

/// The loop invariant of the argument-list parser: finishing the parse from
/// index `i` and prepending the expressions accumulated so far gives exactly
/// the argument list parsed from `k0`.
pub open spec fn sp_args_cont(ts: Seq<TokenV>, k0: int, acc: Seq<ExprV>, i: int) -> bool {
    match (sp_args(ts, i), sp_args(ts, k0)) {
        (Ok(p), Ok(q)) => q.0 == acc + p.0 && q.1 == p.1,
        (Err(e), Err(e2)) => e == e2,
        _ => false,
    }
}

/// What every expression-parsing function ensures: the stream's tokens are
/// untouched, and the result and new cursor position are exactly what the
/// specification grammar says — the parsed node on success (having consumed
/// at least one token), the specified diagnostic on failure.
pub open spec fn expr_result_matches(
    pre: TokenStream,
    post: TokenStream,
    r: CompilerResult<Expression>,
    sp: Result<(ExprV, int), ErrV>,
) -> bool {
    &&& post.wf()
    &&& post.toks() == pre.toks()
    &&& pre.pos <= post.pos
    &&& match sp {
        Ok(p) => r matches Ok(e) && e@ == p.0 && post.pos == p.1 && pre.pos < p.1,
        Err(ev) => r matches Err(err) && err@ == ev,
    }
}


// ---------------------------------------------------------------------------
// The executable expression parser
// ---------------------------------------------------------------------------

impl Expression {
    /// Parse a whole expression, starting at the lowest-precedence level.
    pub fn parse(tokens: &mut TokenStream) -> (r: CompilerResult<Expression>)
        requires
            old(tokens).wf(),
        ensures
            expr_result_matches(
                *old(tokens),
                *final(tokens),
                r,
                sp_expr(old(tokens).toks(), old(tokens).pos as int),
            ),
        decreases rem(old(tokens).toks(), old(tokens).pos as int), 14int,
    {
        Expression::assignment(tokens)
    }

    /// Assignment level: reserved; the data model has no assignment node, so
    /// this is currently a pass-through to the logical-or level.
    pub fn assignment(tokens: &mut TokenStream) -> (r: CompilerResult<Expression>)
        requires
            old(tokens).wf(),
        ensures
            expr_result_matches(
                *old(tokens),
                *final(tokens),
                r,
                sp_assignment(old(tokens).toks(), old(tokens).pos as int),
            ),
        decreases rem(old(tokens).toks(), old(tokens).pos as int), 13int,
    {
        Expression::or(tokens)
    }

    /// Logical-or level: folds `||` into left-deepening binary nodes.
    #[verifier::rlimit(50)]
    pub fn or(tokens: &mut TokenStream) -> (r: CompilerResult<Expression>)
        requires
            old(tokens).wf(),
        ensures
            expr_result_matches(
                *old(tokens),
                *final(tokens),
                r,
                sp_or(old(tokens).toks(), old(tokens).pos as int),
            ),
        decreases rem(old(tokens).toks(), old(tokens).pos as int), 12int,
    {
        let ghost ts = old(tokens).toks();
        let ghost i0 = old(tokens).pos as int;
        let mut expr = Expression::and(tokens)?;
        while tokens.next_matches(TokenType::PipePipe)
            invariant
                tokens.wf(),
                tokens.toks() == ts,
                ts == old(tokens).toks(),
                i0 == old(tokens).pos as int,
                i0 < tokens.pos <= ts.len(),
                sp_or_rest(ts, tokens.pos as int, expr@) == sp_or(ts, i0),
            decreases ts.len() - tokens.pos,
        {
            let ghost p0 = tokens.pos as int;
            let ghost lv = expr@;
            let operator = tokens.unshift_expect(TokenType::PipePipe)?;
            let ghost opv = operator@;
            let right = match Expression::and(tokens) {
                Ok(x) => x,
                Err(e) => {
                    proof {
                        assert(sp_or_rest(ts, p0, lv) matches Err(ev) && ev == e@);
                    }
                    return Err(e);
                },
            };
            let ghost rv = right@;
            let span = Span { start: expr.span.start, end: right.span.end };
            expr = Expression {
                expression: ExpressionType::Binary(
                    BinaryExpression { left: Box::new(expr), operator, right: Box::new(right) },
                ),
                span,
            };
            proof {
                assert(expr@ == sp_binary_fold(lv, opv, rv));
                assert(sp_or_rest(ts, tokens.pos as int, expr@) == sp_or_rest(ts, p0, lv));
            }
        }
        Ok(expr)
    }

    /// Logical-and level: folds `&&` into left-deepening binary nodes.
    #[verifier::rlimit(50)]
    pub fn and(tokens: &mut TokenStream) -> (r: CompilerResult<Expression>)
        requires
            old(tokens).wf(),
        ensures
            expr_result_matches(
                *old(tokens),
                *final(tokens),
                r,
                sp_and(old(tokens).toks(), old(tokens).pos as int),
            ),
        decreases rem(old(tokens).toks(), old(tokens).pos as int), 10int,
    {
        let ghost ts = old(tokens).toks();
        let ghost i0 = old(tokens).pos as int;
        let mut expr = Expression::equality(tokens)?;
        while tokens.next_matches(TokenType::AmpersandAmpersand)
            invariant
                tokens.wf(),
                tokens.toks() == ts,
                ts == old(tokens).toks(),
                i0 == old(tokens).pos as int,
                i0 < tokens.pos <= ts.len(),
                sp_and_rest(ts, tokens.pos as int, expr@) == sp_and(ts, i0),
            decreases ts.len() - tokens.pos,
        {
            let ghost p0 = tokens.pos as int;
            let ghost lv = expr@;
            let operator = tokens.unshift_expect(TokenType::AmpersandAmpersand)?;
            let ghost opv = operator@;
            let right = match Expression::equality(tokens) {
                Ok(x) => x,
                Err(e) => {
                    proof {
                        assert(sp_and_rest(ts, p0, lv) matches Err(ev) && ev == e@);
                    }
                    return Err(e);
                },
            };
            let ghost rv = right@;
            let span = Span { start: expr.span.start, end: right.span.end };
            expr = Expression {
                expression: ExpressionType::Binary(
                    BinaryExpression { left: Box::new(expr), operator, right: Box::new(right) },
                ),
                span,
            };
            proof {
                assert(expr@ == sp_binary_fold(lv, opv, rv));
                assert(sp_and_rest(ts, tokens.pos as int, expr@) == sp_and_rest(ts, p0, lv));
            }
        }
        Ok(expr)
    }

    /// Equality level: folds `==` and `!=` into left-deepening binary nodes.
    #[verifier::rlimit(50)]
    pub fn equality(tokens: &mut TokenStream) -> (r: CompilerResult<Expression>)
        requires
            old(tokens).wf(),
        ensures
            expr_result_matches(
                *old(tokens),
                *final(tokens),
                r,
                sp_equality(old(tokens).toks(), old(tokens).pos as int),
            ),
        decreases rem(old(tokens).toks(), old(tokens).pos as int), 8int,
    {
        let ghost ts = old(tokens).toks();
        let ghost i0 = old(tokens).pos as int;
        let mut expr = Expression::comparison(tokens)?;
        while tokens.next_matches_pair(TokenType::BangEquals, TokenType::EqualsEquals)
            invariant
                tokens.wf(),
                tokens.toks() == ts,
                ts == old(tokens).toks(),
                i0 == old(tokens).pos as int,
                i0 < tokens.pos <= ts.len(),
                sp_equality_rest(ts, tokens.pos as int, expr@) == sp_equality(ts, i0),
            decreases ts.len() - tokens.pos,
        {
            let ghost p0 = tokens.pos as int;
            let ghost lv = expr@;
            let operator = tokens.unshift_expect_pair(TokenType::BangEquals, TokenType::EqualsEquals)?;
            let ghost opv = operator@;
            let right = match Expression::comparison(tokens) {
                Ok(x) => x,
                Err(e) => {
                    proof {
                        assert(sp_equality_rest(ts, p0, lv) matches Err(ev) && ev == e@);
                    }
                    return Err(e);
                },
            };
            let ghost rv = right@;
            let span = Span { start: expr.span.start, end: right.span.end };
            expr = Expression {
                expression: ExpressionType::Binary(
                    BinaryExpression { left: Box::new(expr), operator, right: Box::new(right) },
                ),
                span,
            };
            proof {
                assert(expr@ == sp_binary_fold(lv, opv, rv));
                assert(sp_equality_rest(ts, tokens.pos as int, expr@) == sp_equality_rest(ts, p0, lv));
            }
        }
        Ok(expr)
    }

    /// Comparison level: reserved, currently a pass-through to term.
    pub fn comparison(tokens: &mut TokenStream) -> (r: CompilerResult<Expression>)
        requires
            old(tokens).wf(),
        ensures
            expr_result_matches(
                *old(tokens),
                *final(tokens),
                r,
                sp_comparison(old(tokens).toks(), old(tokens).pos as int),
            ),
        decreases rem(old(tokens).toks(), old(tokens).pos as int), 6int,
    {
        Expression::term(tokens)
    }

    /// Term level: reserved, currently a pass-through to factor.
    pub fn term(tokens: &mut TokenStream) -> (r: CompilerResult<Expression>)
        requires
            old(tokens).wf(),
        ensures
            expr_result_matches(
                *old(tokens),
                *final(tokens),
                r,
                sp_term(old(tokens).toks(), old(tokens).pos as int),
            ),
        decreases rem(old(tokens).toks(), old(tokens).pos as int), 5int,
    {
        Expression::factor(tokens)
    }

    /// Factor level: folds `*` and `/` into left-deepening binary nodes.
    #[verifier::rlimit(50)]
    pub fn factor(tokens: &mut TokenStream) -> (r: CompilerResult<Expression>)
        requires
            old(tokens).wf(),
        ensures
            expr_result_matches(
                *old(tokens),
                *final(tokens),
                r,
                sp_factor(old(tokens).toks(), old(tokens).pos as int),
            ),
        decreases rem(old(tokens).toks(), old(tokens).pos as int), 4int,
    {
        let ghost ts = old(tokens).toks();
        let ghost i0 = old(tokens).pos as int;
        let mut expr = Expression::call(tokens)?;
        while tokens.next_matches_pair(TokenType::Asterisk, TokenType::Slash)
            invariant
                tokens.wf(),
                tokens.toks() == ts,
                ts == old(tokens).toks(),
                i0 == old(tokens).pos as int,
                i0 < tokens.pos <= ts.len(),
                sp_factor_rest(ts, tokens.pos as int, expr@) == sp_factor(ts, i0),
            decreases ts.len() - tokens.pos,
        {
            let ghost p0 = tokens.pos as int;
            let ghost lv = expr@;
            let operator = tokens.unshift_expect_pair(TokenType::Asterisk, TokenType::Slash)?;
            let ghost opv = operator@;
            let right = match Expression::call(tokens) {
                Ok(x) => x,
                Err(e) => {
                    proof {
                        assert(sp_factor_rest(ts, p0, lv) matches Err(ev) && ev == e@);
                    }
                    return Err(e);
                },
            };
            let ghost rv = right@;
            let span = Span { start: expr.span.start, end: right.span.end };
            expr = Expression {
                expression: ExpressionType::Binary(
                    BinaryExpression { left: Box::new(expr), operator, right: Box::new(right) },
                ),
                span,
            };
            proof {
                assert(expr@ == sp_binary_fold(lv, opv, rv));
                assert(sp_factor_rest(ts, tokens.pos as int, expr@) == sp_factor_rest(ts, p0, lv));
            }
        }
        Ok(expr)
    }

    /// Unary level: reserved, currently a pass-through to call.
    pub fn unary(tokens: &mut TokenStream) -> (r: CompilerResult<Expression>)
        requires
            old(tokens).wf(),
        ensures
            expr_result_matches(
                *old(tokens),
                *final(tokens),
                r,
                sp_unary(old(tokens).toks(), old(tokens).pos as int),
            ),
    {
        Expression::call(tokens)
    }

    /// A comma-separated, possibly-empty argument list, stopped by `)`.
    #[verifier::rlimit(50)]
    pub(crate) fn parse_args(tokens: &mut TokenStream) -> (r: CompilerResult<Vec<Expression>>)
        requires
            old(tokens).wf(),
        ensures
            final(tokens).wf(),
            final(tokens).toks() == old(tokens).toks(),
            old(tokens).pos <= final(tokens).pos <= final(tokens).toks().len(),
            match sp_args(old(tokens).toks(), old(tokens).pos as int) {
                Ok(p) => r matches Ok(es) && exprs_view(es@) == p.0 && final(tokens).pos == p.1,
                Err(ev) => r matches Err(e) && e@ == ev,
            },
        decreases rem(old(tokens).toks(), old(tokens).pos as int), 15int,
    {
        let ghost ts = old(tokens).toks();
        let ghost k0 = old(tokens).pos as int;
        let mut arguments: Vec<Expression> = Vec::new();
        proof {
            assert(exprs_view(arguments@) =~= Seq::<ExprV>::empty());
        }
        while !tokens.next_matches(TokenType::RightParen)
            invariant
                tokens.wf(),
                tokens.toks() == ts,
                ts == old(tokens).toks(),
                k0 == old(tokens).pos as int,
                k0 <= tokens.pos <= ts.len(),
                sp_args_cont(ts, k0, exprs_view(arguments@), tokens.pos as int),
            decreases ts.len() - tokens.pos,
        {
            let ghost p0 = tokens.pos as int;
            let ghost acc = exprs_view(arguments@);
            proof {
                if p0 >= ts.len() {
                    lemma_sp_expr_eof(ts, p0);
                }
            }
            let e = match Expression::parse(tokens) {
                Ok(x) => x,
                Err(er) => {
                    proof {
                        assert(sp_args(ts, p0) matches Err(ev) && ev == er@);
                    }
                    return Err(er);
                },
            };
            let ghost ev = e@;
            let ghost j = tokens.pos as int;
            arguments.push(e);
            proof {
                assert(exprs_view(arguments@) =~= acc + seq![ev]);
            }
            if !tokens.next_matches(TokenType::RightParen) {
                match tokens.unshift_expect(TokenType::Comma) {
                    Ok(_c) => {
                        proof {
                            assert(step_idx(ts, p0, j + 1) == j + 1);
                            match sp_args(ts, tokens.pos as int) {
                                Ok(p) => {
                                    assert((acc + seq![ev]) + p.0 =~= acc + (seq![ev] + p.0));
                                },
                                Err(_) => {},
                            }
                            assert(sp_args_cont(ts, k0, exprs_view(arguments@), tokens.pos as int));
                        }
                    },
                    Err(er) => {
                        proof {
                            assert(sp_args(ts, p0) matches Err(ev2) && ev2 == er@);
                        }
                        return Err(er);
                    },
                }
            } else {
                proof {
                    assert((acc + seq![ev]) + Seq::<ExprV>::empty() =~= acc + seq![ev]);
                    assert(sp_args(ts, j) == Ok::<(Seq<ExprV>, int), ErrV>(
                        (Seq::<ExprV>::empty(), j),
                    ));
                    assert(sp_args_cont(ts, k0, exprs_view(arguments@), tokens.pos as int));
                }
            }
        }
        proof {
            assert(exprs_view(arguments@) + Seq::<ExprV>::empty() =~= exprs_view(arguments@));
        }
        Ok(arguments)
    }

    /// Call level: a literal, optionally followed by a parenthesized argument
    /// list; the callee name is the literal operand's text.
    #[verifier::rlimit(50)]
    pub fn call(tokens: &mut TokenStream) -> (r: CompilerResult<Expression>)
        requires
            old(tokens).wf(),
        ensures
            expr_result_matches(
                *old(tokens),
                *final(tokens),
                r,
                sp_call(old(tokens).toks(), old(tokens).pos as int),
            ),
        decreases rem(old(tokens).toks(), old(tokens).pos as int), 2int,
    {
        let expr = Expression::literal(tokens)?;
        if tokens.next_matches(TokenType::LeftParen) {
            tokens.unshift_expect(TokenType::LeftParen)?;
            let arguments = Expression::parse_args(tokens)?;
            let rp = tokens.unshift_expect(TokenType::RightParen)?;
            let name = match &expr.expression {
                ExpressionType::Literal(l) => l.value.clone(),
                _ => {
                    proof {
                        assert(false);
                    }
                    String::new()
                },
            };
            let span = Span { start: expr.span.start, end: rp.span.end };
            let result = Expression {
                expression: ExpressionType::FunctionCall(
                    FunctionCallExpression { name, arguments },
                ),
                span,
            };
            proof {
                let argsv = exprs_view(result.expression->FunctionCall_0.arguments@);
                assert(result@.expression->FunctionCall_0.arguments =~= argsv);
            }
            Ok(result)
        } else {
            Ok(expr)
        }
    }

    /// Primary level: reserved, currently a pass-through to literal.
    pub fn primary(tokens: &mut TokenStream) -> (r: CompilerResult<Expression>)
        requires
            old(tokens).wf(),
        ensures
            expr_result_matches(
                *old(tokens),
                *final(tokens),
                r,
                sp_primary(old(tokens).toks(), old(tokens).pos as int),
            ),
    {
        Expression::literal(tokens)
    }

    /// Literal level: exactly an integer literal or an identifier token.
    pub fn literal(tokens: &mut TokenStream) -> (r: CompilerResult<Expression>)
        requires
            old(tokens).wf(),
        ensures
            expr_result_matches(
                *old(tokens),
                *final(tokens),
                r,
                sp_literal(old(tokens).toks(), old(tokens).pos as int),
            ),
    {
        match tokens.peek_kind() {
            Some(k) => {
                if k == TokenType::IntegerLiteral || k == TokenType::Identifier {
                    let token = tokens.unshift().unwrap();
                    let literal = literal_type_of(token.type_);
                    Ok(Expression {
                        expression: ExpressionType::Literal(
                            LiteralExpression { literal, value: token.value },
                        ),
                        span: token.span,
                    })
                } else {
                    let token = tokens.unshift().unwrap();
                    let message = String::from_str("Invalid expression: got '").concat(
                        token.value.as_str(),
                    ).concat("'");
                    Err(CompilerError {
                        error_code: ErrorCode::InvalidExpression,
                        error_message: message,
                        span_message: String::new(),
                        token,
                        help: Some(
                            String::from_str("Expected an integer literal or an identifier"),
                        ),
                        info: None,
                    })
                }
            },
            None => Err(CompilerError {
                error_code: ErrorCode::UnexpectedToken,
                error_message: String::from_str("End of file reached while parsing expression"),
                span_message: String::new(),
                token: Token::invalid(),
                help: Some(
                    String::from_str("Expected an expression, but reached the end of the file"),
                ),
                info: None,
            }),
        }
    }
}

} // verus!
