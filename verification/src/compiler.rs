//! The compiler facade: lex, collect unknown-token diagnostics, parse, and
//! keep the diagnostics and their renderings for the caller to report.

use vstd::prelude::*;
use vstd::string::StringExecFns;
use vstd::utf8::encode_utf8;
use crate::error::{CompilerError, ErrV, ErrorCode};
use crate::error_logger::{spec_render, ErrorLogger};
use crate::lexer::{spec_lex, tokens_view, Lexer};
use crate::parser::{sp_program, Parser, AST};
use crate::token::{TokenType, TokenV};

verus! {

/// The diagnostics of the lexical pass: one `UnknownToken` error per
/// `Unknown` token, in source order, from index `i` onward.
pub open spec fn sp_unknown_errs(ts: Seq<TokenV>, i: int) -> Seq<ErrV>
    decreases ts.len() - i,
{
    if i < 0 || i >= ts.len() {
        Seq::empty()
    } else if ts[i].type_ == TokenType::Unknown {
        seq![ErrV { code: ErrorCode::UnknownToken, token: ts[i] }] + sp_unknown_errs(ts, i + 1)
    } else {
        sp_unknown_errs(ts, i + 1)
    }
}

/// The images of a diagnostic list.
pub open spec fn errs_view(ds: Seq<CompilerError>) -> Seq<ErrV> {
    ds.map_values(|d: CompilerError| d@)
}

/// The diagnostics one `compile` call produces: the lexical pass's
/// unknown-token errors, then the first parse error if parsing failed.
pub open spec fn sp_compile_diags(ts: Seq<TokenV>) -> Seq<ErrV> {
    sp_unknown_errs(ts, 0) + (match sp_program(ts, 0) {
        Ok(_) => Seq::<ErrV>::empty(),
        Err(ev) => seq![ev],
    })
}

/// Orchestrates lex, the scan for unknown tokens, and parse, and owns the
/// error reporter.
#[derive(Debug)]
pub struct Compiler<'a> {
    pub input: &'a str,
    pub filename: &'a str,
    pub lexer: Lexer<'a>,
    pub error_logger: ErrorLogger<'a>,
    pub diagnostics: Vec<CompilerError>,
    pub reports: Vec<String>,
}

impl<'a> Compiler<'a> {
    /// The source text's UTF-8 encoding fits in a `usize`, as it does for any
    /// text that is in memory.
    pub open spec fn wf(&self) -> bool {
        &&& encode_utf8(self.input@).len() <= usize::MAX
        &&& self.error_logger.filename == self.filename
        &&& self.error_logger.input == self.input
    }

    pub fn new(input: &'a str, filename: &'a str) -> (r: Compiler<'a>)
        requires
            encode_utf8(input@).len() <= usize::MAX,
        ensures
            r.wf(),
            r.input == input,
            r.filename == filename,
            r.diagnostics@.len() == 0,
            r.reports@.len() == 0,
    {
        let error_logger = ErrorLogger::new(filename, input);
        Compiler {
            input,
            filename,
            lexer: Lexer::new(),
            error_logger,
            diagnostics: Vec::new(),
            reports: Vec::new(),
        }
    }

    /// Lex the whole source; report every `Unknown` token as an
    /// `UnknownToken` diagnostic; parse the token sequence; on parse failure
    /// keep that diagnostic too and return a failure summary. The diagnostics
    /// and their renderings are left in `diagnostics` and `reports`.
    #[verifier::rlimit(50)]
    pub fn compile(&mut self) -> (r: Result<AST, String>)
        requires
            old(self).wf(),
        ensures
            final(self).wf(),
            final(self).input == old(self).input,
            final(self).filename == old(self).filename,
            match sp_program(spec_lex(old(self).input@), 0) {
                Ok(ss) => r matches Ok(ast) && ast@ == ss,
                Err(_) => r matches Err(_),
            },
            errs_view(final(self).diagnostics@) == sp_compile_diags(spec_lex(old(self).input@)),
            final(self).reports@.len() == final(self).diagnostics@.len(),
            forall|k: int|
                0 <= k < final(self).reports@.len() ==> (#[trigger] final(self).reports@[k])@
                    == spec_render(
                    old(self).filename@,
                    old(self).input@,
                    final(self).diagnostics@[k],
                ),
    {
        let ghost s = self.input@;
        self.lexer.lex(self.input);
        let ghost ts = spec_lex(s);

        // Scan the token sequence for Unknown tokens; each one becomes an
        // UnknownToken diagnostic. Lexical errors are collected here and do
        // not stop the pipeline: parsing proceeds on the same sequence.
        let mut diagnostics: Vec<CompilerError> = Vec::new();
        let n = self.lexer.tokens.len();
        let mut i: usize = 0;
        proof {
            assert(tokens_view(self.lexer.tokens@) == ts);
            assert(errs_view(diagnostics@) =~= Seq::<ErrV>::empty());
            assert(errs_view(diagnostics@) + sp_unknown_errs(ts, 0) =~= sp_unknown_errs(ts, 0));
        }
        while i < n
            invariant
                self.wf(),
                self.input == old(self).input,
                self.filename == old(self).filename,
                self.error_logger == old(self).error_logger,
                s == self.input@,
                n == self.lexer.tokens@.len(),
                tokens_view(self.lexer.tokens@) == ts,
                i <= n,
                errs_view(diagnostics@) + sp_unknown_errs(ts, i as int) == sp_unknown_errs(ts, 0),
            decreases n - i,
        {
            let ghost acc = errs_view(diagnostics@);
            let t = &self.lexer.tokens[i];
            if t.type_ == TokenType::Unknown {
                let token = t.clone();
                let ghost ev = ErrV { code: ErrorCode::UnknownToken, token: ts[i as int] };
                diagnostics.push(CompilerError {
                    error_code: ErrorCode::UnknownToken,
                    error_message: String::from_str("Unknown token"),
                    span_message: String::from_str("This token is unknown to the compiler"),
                    token,
                    help: None,
                    info: None,
                });
                proof {
                    assert(errs_view(diagnostics@) =~= acc + seq![ev]);
                    assert((acc + seq![ev]) + sp_unknown_errs(ts, i + 1) =~= acc + (seq![ev]
                        + sp_unknown_errs(ts, i + 1)));
                }
            }
            i = i + 1;
        }
        proof {
            assert(errs_view(diagnostics@) + Seq::<ErrV>::empty() =~= errs_view(diagnostics@));
        }

        // Parse the full token sequence; the first syntactic error aborts the
        // whole compile call.
        let mut token_stream = self.lexer.get_tokens_peekable();
        match Parser::parse(&mut token_stream) {
            Ok(ast) => {
                self.diagnostics = diagnostics;
                self.reports = self.error_logger.report_many(&self.diagnostics);
                proof {
                    assert(errs_view(self.diagnostics@) =~= sp_compile_diags(ts));
                }
                Ok(ast)
            },
            Err(e) => {
                let message = String::from_str("Error parsing tokens: ").concat(
                    e.error_message.as_str(),
                );
                let ghost acc = errs_view(diagnostics@);
                let ghost ev = e@;
                diagnostics.push(e);
                self.diagnostics = diagnostics;
                self.reports = self.error_logger.report_many(&self.diagnostics);
                proof {
                    assert(errs_view(self.diagnostics@) =~= acc + seq![ev]);
                    assert(errs_view(self.diagnostics@) =~= sp_compile_diags(ts));
                }
                Err(message)
            },
        }
    }
}

} // verus!
