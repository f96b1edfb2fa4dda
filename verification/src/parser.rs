//! The top-level parser: repeatedly parses statements while the stream is
//! non-empty; the result is the AST.

use vstd::prelude::*;
use crate::error::{CompilerResult, ErrV};
use crate::statement::{
    sp_stmt, spanned_view, stmts_view, SpannedStatement, Statement, StmtV,
};
use crate::stream::{rem, sp_peek, step_idx, TokenStream};
use crate::token::TokenV;

verus! {

/// The root of the syntax tree: the source's statements, in source order.
#[derive(Debug, PartialEq, Eq)]
pub struct AST {
    pub statements: Vec<SpannedStatement>,
}

impl View for AST {
    type V = Seq<StmtV>;

    open spec fn view(&self) -> Seq<StmtV> {
        stmts_view(self.statements@)
    }
}

/// The statement sequence of the whole token sequence from index `i`, or the
/// first statement-level diagnostic.
pub open spec fn sp_program(ts: Seq<TokenV>, i: int) -> Result<Seq<StmtV>, ErrV>
    decreases rem(ts, i),
{
    match sp_peek(ts, i) {
        None => Ok(Seq::empty()),
        Some(_t) => match sp_stmt(ts, i) {
            Err(e) => Err(e),
            Ok((sv, j)) => match sp_program(ts, step_idx(ts, i, j)) {
                Err(e) => Err(e),
                Ok(rest) => Ok(seq![sv] + rest),
            },
        },
    }
}

/// The loop invariant of the top-level parser: finishing the parse from
/// index `i` and prepending the statements parsed so far gives exactly the
/// program parsed from `k0`.
pub open spec fn sp_program_cont(ts: Seq<TokenV>, k0: int, acc: Seq<StmtV>, i: int) -> bool {
    match (sp_program(ts, i), sp_program(ts, k0)) {
        (Ok(p), Ok(q)) => q == acc + p,
        (Err(e), Err(e2)) => e == e2,
        _ => false,
    }
}

#[derive(Debug, Clone)]
pub struct Parser {}

impl Parser {
    /// Parse the whole token stream into an AST, or stop at the first
    /// statement-level diagnostic.
    #[verifier::rlimit(50)]
    pub fn parse(tokens: &mut TokenStream) -> (r: CompilerResult<AST>)
        requires
            old(tokens).wf(),
        ensures
            final(tokens).wf(),
            final(tokens).toks() == old(tokens).toks(),
            old(tokens).pos <= final(tokens).pos,
            match sp_program(old(tokens).toks(), old(tokens).pos as int) {
                Ok(ss) => r matches Ok(ast) && ast@ == ss && final(tokens).pos == old(
                    tokens,
                ).toks().len(),
                Err(ev) => r matches Err(e) && e@ == ev,
            },
    {
        let ghost ts = old(tokens).toks();
        let ghost k0 = old(tokens).pos as int;
        let mut statements: Vec<SpannedStatement> = Vec::new();
        proof {
            assert(stmts_view(statements@) =~= Seq::<StmtV>::empty());
        }
        while tokens.has_next()
            invariant
                tokens.wf(),
                tokens.toks() == ts,
                ts == old(tokens).toks(),
                k0 == old(tokens).pos as int,
                k0 <= tokens.pos <= ts.len(),
                sp_program_cont(ts, k0, stmts_view(statements@), tokens.pos as int),
            decreases ts.len() - tokens.pos,
        {
            let ghost p0 = tokens.pos as int;
            let ghost acc = stmts_view(statements@);
            let s = match Statement::parse(tokens) {
                Ok(x) => x,
                Err(er) => {
                    proof {
                        assert(sp_program(ts, p0) matches Err(ev) && ev == er@);
                    }
                    return Err(er);
                },
            };
            let ghost sv = spanned_view(s);
            statements.push(s);
            proof {
                assert(stmts_view(statements@) =~= acc + seq![sv]);
                assert(step_idx(ts, p0, tokens.pos as int) == tokens.pos as int);
                match sp_program(ts, tokens.pos as int) {
                    Ok(p) => {
                        assert((acc + seq![sv]) + p =~= acc + (seq![sv] + p));
                    },
                    Err(_) => {},
                }
                assert(sp_program_cont(ts, k0, stmts_view(statements@), tokens.pos as int));
            }
        }
        proof {
            assert(stmts_view(statements@) + Seq::<StmtV>::empty() =~= stmts_view(statements@));
        }
        Ok(AST { statements })
    }
}

} // verus!
