//! The diagnostic model: a structured error carrying an error kind, a human
//! message, the offending token, and optional help/info text.

use vstd::prelude::*;
use vstd::string::StringExecFns;
use crate::token::{Token, TokenType, TokenV};

verus! {

/// The closed set of error kinds.
#[derive(Debug, PartialEq, Eq, Clone, Copy, Structural)]
pub enum ErrorCode {
    InvalidExpression,
    InvalidParameterType,
    InvalidReturnType,
    NoTokensLeft,
    UnexpectedToken,
    UnknownToken,
    UnshiftedUnexpectedToken,
}

/// Mathematical image of a diagnostic: its kind and its offending token.
pub struct ErrV {
    pub code: ErrorCode,
    pub token: TokenV,
}

/// A diagnostic value: produced on malformed input, consumed by the reporter.
#[derive(Debug)]
pub struct CompilerError {
    pub error_code: ErrorCode,
    pub error_message: String,
    pub span_message: String,
    pub token: Token,
    pub help: Option<String>,
    pub info: Option<String>,
}

impl View for CompilerError {
    type V = ErrV;

    open spec fn view(&self) -> ErrV {
        ErrV { code: self.error_code, token: self.token@ }
    }
}

pub type CompilerResult<T> = Result<T, CompilerError>;

/// The fixed display string of each error kind.
pub open spec fn spec_error_code_name(c: ErrorCode) -> Seq<char> {
    match c {
        ErrorCode::UnknownToken => "Unknown token"@,
        ErrorCode::UnexpectedToken => "Unexpected token"@,
        ErrorCode::NoTokensLeft => "No tokens left"@,
        ErrorCode::UnshiftedUnexpectedToken => "Unshifted unexpected token"@,
        ErrorCode::InvalidParameterType => "Invalid parameter type"@,
        ErrorCode::InvalidReturnType => "Invalid return type"@,
        ErrorCode::InvalidExpression => "Invalid expression"@,
    }
}

pub fn error_code_name(c: ErrorCode) -> (r: &'static str)
    ensures
        r@ == spec_error_code_name(c),
{
    match c {
        ErrorCode::UnknownToken => "Unknown token",
        ErrorCode::UnexpectedToken => "Unexpected token",
        ErrorCode::NoTokensLeft => "No tokens left",
        ErrorCode::UnshiftedUnexpectedToken => "Unshifted unexpected token",
        ErrorCode::InvalidParameterType => "Invalid parameter type",
        ErrorCode::InvalidReturnType => "Invalid return type",
        ErrorCode::InvalidExpression => "Invalid expression",
    }
}

/// Human text `Expected '<kind>', got '<lexeme>'`.
pub(crate) fn msg_expected_got(expected: TokenType, got: &Token) -> String {
    String::from_str("Expected '").concat(crate::token::token_type_name(expected)).concat(
        "', got '",
    ).concat(got.value.as_str()).concat("'")
}

/// Human text `Expected token <kind>, got None`.
pub(crate) fn msg_expected_eof(expected: TokenType) -> String {
    String::from_str("Expected token ").concat(crate::token::token_type_name(expected)).concat(
        ", got None",
    )
}

/// Human text listing the kinds that would have been accepted.
pub(crate) fn msg_expected_any_got(expected: &[TokenType], got: Option<&Token>) -> String {
    let mut s = String::from_str("Expected one of:");
    let mut i: usize = 0;
    while i < expected.len()
        decreases expected.len() - i,
    {
        s = s.concat(" ").concat(crate::token::token_type_name(expected[i]));
        i = i + 1;
    }
    match got {
        Some(t) => s.concat(", got '").concat(t.value.as_str()).concat("'"),
        None => s.concat(", got None"),
    }
}

} // verus!
