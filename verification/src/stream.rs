//! The token stream: a cursor over the token sequence with single-token
//! lookahead and expect/consume operations used by the parser.

use vstd::prelude::*;
use crate::error::{CompilerError, CompilerResult, ErrV, ErrorCode};
use crate::error::{msg_expected_any_got, msg_expected_eof, msg_expected_got};
use crate::lexer::tokens_view;
use crate::token::{invalid_token_v, Token, TokenType, TokenV};

verus! {

// ---------------------------------------------------------------------------
// Specification of the cursor operations
// ---------------------------------------------------------------------------

/// The token at index `i`, if any.
pub open spec fn sp_peek(ts: Seq<TokenV>, i: int) -> Option<TokenV> {
    if 0 <= i < ts.len() {
        Some(ts[i])
    } else {
        None
    }
}

/// Whether the token at index `i` exists and has the given kind.
pub open spec fn sp_next_matches(ts: Seq<TokenV>, i: int, k: TokenType) -> bool {
    0 <= i < ts.len() && ts[i].type_ == k
}

/// Whether the token at index `i` exists and has one of the given kinds.
pub open spec fn sp_next_matches_any(ts: Seq<TokenV>, i: int, ks: Seq<TokenType>) -> bool {
    0 <= i < ts.len() && ks.contains(ts[i].type_)
}

/// Consuming the token at index `i` when it has the given kind: the token and
/// the next index on success; otherwise the diagnostic the stream raises —
/// `UnshiftedUnexpectedToken` carrying the offending token, or `NoTokensLeft`
/// carrying the zero-width sentinel when the stream is exhausted.
pub open spec fn sp_expect(ts: Seq<TokenV>, i: int, k: TokenType) -> Result<(TokenV, int), ErrV> {
    if 0 <= i < ts.len() {
        if ts[i].type_ == k {
            Ok((ts[i], i + 1))
        } else {
            Err(ErrV { code: ErrorCode::UnshiftedUnexpectedToken, token: ts[i] })
        }
    } else {
        Err(ErrV { code: ErrorCode::NoTokensLeft, token: invalid_token_v() })
    }
}

/// As `sp_expect`, against a set of kinds.
pub open spec fn sp_expect_any(ts: Seq<TokenV>, i: int, ks: Seq<TokenType>) -> Result<
    (TokenV, int),
    ErrV,
> {
    if 0 <= i < ts.len() {
        if ks.contains(ts[i].type_) {
            Ok((ts[i], i + 1))
        } else {
            Err(ErrV { code: ErrorCode::UnshiftedUnexpectedToken, token: ts[i] })
        }
    } else {
        Err(ErrV { code: ErrorCode::NoTokensLeft, token: invalid_token_v() })
    }
}

/// Tokens remaining at index `i`: the termination measure of the grammar's
/// recursion.
pub open spec fn rem(ts: Seq<TokenV>, i: int) -> int {
    if i < 0 {
        ts.len() as int + 1
    } else if i < ts.len() {
        ts.len() - i
    } else {
        0
    }
}

/// The index a sub-parse left the cursor at, guarded so that it strictly
/// advances and stays inside the sequence; on every reachable path the
/// sub-parse's index already does both, and this is the identity.
pub open spec fn step_idx(ts: Seq<TokenV>, i: int, j: int) -> int {
    if i < j && j <= ts.len() {
        j
    } else if i + 1 <= ts.len() {
        i + 1
    } else {
        ts.len() as int
    }
}

// ---------------------------------------------------------------------------
// The executable cursor
// ---------------------------------------------------------------------------

/// A unique, exclusively-owned cursor over the token sequence for the
/// duration of one parse.
#[derive(Debug)]
pub struct TokenStream {
    pub tokens: Vec<Token>,
    pub pos: usize,
}

impl TokenStream {
    /// All tokens, as their images; the cursor has consumed those before `pos`.
    pub open spec fn toks(&self) -> Seq<TokenV> {
        tokens_view(self.tokens@)
    }

    pub open spec fn wf(&self) -> bool {
        self.pos <= self.tokens@.len()
    }

    pub fn new(tokens: Vec<Token>) -> (s: TokenStream)
        ensures
            s.wf(),
            s.toks() == tokens_view(tokens@),
            s.pos == 0,
    {
        TokenStream { tokens, pos: 0 }
    }

    /// Non-consuming look at the next token, or `None` at end of input.
    pub fn peek(&self) -> (r: Option<&Token>)
        requires
            self.wf(),
        ensures
            match r {
                Some(t) => self.pos < self.toks().len() && t@ == self.toks()[self.pos as int],
                None => self.pos == self.toks().len(),
            },
    {
        if self.pos < self.tokens.len() {
            Some(&self.tokens[self.pos])
        } else {
            None
        }
    }

    /// Consume and return the next token, or `None` at end of input.
    pub fn unshift(&mut self) -> (r: Option<Token>)
        requires
            old(self).wf(),
        ensures
            final(self).wf(),
            final(self).toks() == old(self).toks(),
            match r {
                Some(t) => {
                    &&& old(self).pos < old(self).toks().len()
                    &&& t@ == old(self).toks()[old(self).pos as int]
                    &&& final(self).pos == old(self).pos + 1
                },
                None => old(self).pos == old(self).toks().len() && final(self).pos == old(
                    self,
                ).pos,
            },
    {
        if self.pos < self.tokens.len() {
            let t = self.tokens[self.pos].clone();
            self.pos = self.pos + 1;
            Some(t)
        } else {
            None
        }
    }

    /// Consume and return the next token only if its kind matches; otherwise
    /// fail exactly as `sp_expect` describes, consuming the offending token
    /// into the diagnostic.
    pub fn unshift_expect(&mut self, expected: TokenType) -> (r: CompilerResult<Token>)
        requires
            old(self).wf(),
        ensures
            final(self).wf(),
            final(self).toks() == old(self).toks(),
            match sp_expect(old(self).toks(), old(self).pos as int, expected) {
                Ok(p) => r matches Ok(t) && t@ == p.0 && final(self).pos == p.1,
                Err(ev) => r matches Err(e) && e@ == ev && final(self).pos == (
                if old(self).pos < old(self).toks().len() {
                    old(self).pos + 1
                } else {
                    old(self).pos as int
                }),
            },
    {
        match self.peek() {
            Some(t) => {
                if t.type_ == expected {
                    Ok(self.unshift().unwrap())
                } else {
                    let message = msg_expected_got(expected, t);
                    let token = self.unshift().unwrap();
                    Err(CompilerError {
                        error_code: ErrorCode::UnshiftedUnexpectedToken,
                        error_message: message,
                        span_message: String::new(),
                        token,
                        help: Some(
                            String::from_str("Expected a token of the kind named in the message"),
                        ),
                        info: None,
                    })
                }
            },
            None => Err(CompilerError {
                error_code: ErrorCode::NoTokensLeft,
                error_message: msg_expected_eof(expected),
                span_message: String::new(),
                token: Token::invalid(),
                help: Some(String::from_str("Expected a token, but reached the end of the file")),
                info: None,
            }),
        }
    }

    /// As `unshift_expect`, against a set of kinds.
    pub fn unshift_expect_any(&mut self, expected: &[TokenType]) -> (r: CompilerResult<Token>)
        requires
            old(self).wf(),
        ensures
            final(self).wf(),
            final(self).toks() == old(self).toks(),
            match sp_expect_any(old(self).toks(), old(self).pos as int, expected@) {
                Ok(p) => r matches Ok(t) && t@ == p.0 && final(self).pos == p.1,
                Err(ev) => r matches Err(e) && e@ == ev && final(self).pos == (
                if old(self).pos < old(self).toks().len() {
                    old(self).pos + 1
                } else {
                    old(self).pos as int
                }),
            },
    {
        match self.peek() {
            Some(t) => {
                if token_type_in(expected, t.type_) {
                    Ok(self.unshift().unwrap())
                } else {
                    let message = msg_expected_any_got(expected, Some(t));
                    let token = self.unshift().unwrap();
                    Err(CompilerError {
                        error_code: ErrorCode::UnshiftedUnexpectedToken,
                        error_message: message,
                        span_message: String::new(),
                        token,
                        help: Some(
                            String::from_str("Expected a token of one of the kinds in the message"),
                        ),
                        info: None,
                    })
                }
            },
            None => Err(CompilerError {
                error_code: ErrorCode::NoTokensLeft,
                error_message: msg_expected_any_got(expected, None),
                span_message: String::new(),
                token: Token::invalid(),
                help: Some(String::from_str("Expected a token, but reached the end of the file")),
                info: None,
            }),
        }
    }

    /// Consume the next token only when its kind matches; otherwise leave the
    /// stream untouched and return `None`.
    pub fn unshift_if(&mut self, expected: TokenType) -> (r: Option<Token>)
        requires
            old(self).wf(),
        ensures
            final(self).wf(),
            final(self).toks() == old(self).toks(),
            match r {
                Some(t) => {
                    &&& sp_next_matches(old(self).toks(), old(self).pos as int, expected)
                    &&& t@ == old(self).toks()[old(self).pos as int]
                    &&& final(self).pos == old(self).pos + 1
                },
                None => {
                    &&& !sp_next_matches(old(self).toks(), old(self).pos as int, expected)
                    &&& final(self).pos == old(self).pos
                },
            },
    {
        match self.peek() {
            Some(t) => {
                if t.type_ == expected {
                    Some(self.unshift().unwrap())
                } else {
                    None
                }
            },
            None => None,
        }
    }

    /// Non-consuming check of the next token's kind against two alternatives.
    pub fn next_matches_pair(&self, a: TokenType, b: TokenType) -> (r: bool)
        requires
            self.wf(),
        ensures
            r == sp_next_matches_any(self.toks(), self.pos as int, seq![a, b]),
    {
        proof {
            if self.pos < self.toks().len() {
                lemma_pair_contains(a, b, self.toks()[self.pos as int].type_);
            }
        }
        match self.peek_kind() {
            Some(k) => k == a || k == b,
            None => false,
        }
    }

    /// As `unshift_expect`, against two alternative kinds.
    pub fn unshift_expect_pair(&mut self, a: TokenType, b: TokenType) -> (r: CompilerResult<Token>)
        requires
            old(self).wf(),
        ensures
            final(self).wf(),
            final(self).toks() == old(self).toks(),
            match sp_expect_any(old(self).toks(), old(self).pos as int, seq![a, b]) {
                Ok(p) => r matches Ok(t) && t@ == p.0 && final(self).pos == p.1,
                Err(ev) => r matches Err(e) && e@ == ev && final(self).pos == (
                if old(self).pos < old(self).toks().len() {
                    old(self).pos + 1
                } else {
                    old(self).pos as int
                }),
            },
    {
        proof {
            if old(self).pos < old(self).toks().len() {
                lemma_pair_contains(a, b, old(self).toks()[old(self).pos as int].type_);
            }
        }
        match self.peek() {
            Some(t) => {
                if t.type_ == a || t.type_ == b {
                    Ok(self.unshift().unwrap())
                } else {
                    let kinds = vec![a, b];
                    let message = msg_expected_any_got(kinds.as_slice(), Some(t));
                    let token = self.unshift().unwrap();
                    Err(CompilerError {
                        error_code: ErrorCode::UnshiftedUnexpectedToken,
                        error_message: message,
                        span_message: String::new(),
                        token,
                        help: Some(
                            String::from_str("Expected a token of one of the kinds in the message"),
                        ),
                        info: None,
                    })
                }
            },
            None => {
                let kinds = vec![a, b];
                Err(CompilerError {
                    error_code: ErrorCode::NoTokensLeft,
                    error_message: msg_expected_any_got(kinds.as_slice(), None),
                    span_message: String::new(),
                    token: Token::invalid(),
                    help: Some(
                        String::from_str("Expected a token, but reached the end of the file"),
                    ),
                    info: None,
                })
            },
        }
    }

    /// Whether any token remains.
    pub fn has_next(&self) -> (r: bool)
        requires
            self.wf(),
        ensures
            r == (self.pos < self.toks().len()),
    {
        self.pos < self.tokens.len()
    }

    /// The next token's kind, without consuming it.
    pub fn peek_kind(&self) -> (r: Option<TokenType>)
        requires
            self.wf(),
        ensures
            match r {
                Some(k) => self.pos < self.toks().len() && self.toks()[self.pos as int].type_
                    == k,
                None => self.pos == self.toks().len(),
            },
    {
        match self.peek() {
            Some(t) => Some(t.type_),
            None => None,
        }
    }

    /// Non-consuming check of the next token's kind.
    pub fn next_matches(&self, expected: TokenType) -> (r: bool)
        requires
            self.wf(),
        ensures
            r == sp_next_matches(self.toks(), self.pos as int, expected),
    {
        match self.peek() {
            Some(t) => t.type_ == expected,
            None => false,
        }
    }

    /// Non-consuming check of the next token's kind against a set.
    pub fn next_matches_any(&self, expected: &[TokenType]) -> (r: bool)
        requires
            self.wf(),
        ensures
            r == sp_next_matches_any(self.toks(), self.pos as int, expected@),
    {
        match self.peek() {
            Some(t) => token_type_in(expected, t.type_),
            None => false,
        }
    }
}

/// A two-element kind sequence contains exactly its two elements.
pub proof fn lemma_pair_contains(a: TokenType, b: TokenType, x: TokenType)
    ensures
        seq![a, b].contains(x) <==> (x == a || x == b),
{
    if x == a {
        assert(seq![a, b][0] == x);
        assert(seq![a, b].contains(x));
    } else if x == b {
        assert(seq![a, b][1] == x);
        assert(seq![a, b].contains(x));
    } else {
        if seq![a, b].contains(x) {
            let i = choose|i: int| 0 <= i < seq![a, b].len() && seq![a, b][i] == x;
            assert(i == 0 || i == 1);
        }
    }
}

/// Membership of a kind in a list of kinds.
pub fn token_type_in(list: &[TokenType], t: TokenType) -> (r: bool)
    ensures
        r == list@.contains(t),
{
    let mut i: usize = 0;
    while i < list.len()
        invariant
            i <= list@.len(),
            forall|k: int| 0 <= k < i ==> list@[k] != t,
        decreases list@.len() - i,
    {
        if list[i] == t {
            assert(list@.contains(t));
            return true;
        }
        i = i + 1;
    }
    assert(!list@.contains(t));
    false
}

} // verus!
