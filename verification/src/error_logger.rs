//! The error reporter: renders diagnostics against the original source text,
//! reproducing line/column context from byte offsets.

use vstd::prelude::*;
use vstd::string::StrSliceExecFns;
use vstd::string::StringExecFns;
use crate::error::{spec_error_code_name, error_code_name, CompilerError};
use crate::lexer::char_len;

verus! {

// ---------------------------------------------------------------------------
// Line and column from a byte offset
// ---------------------------------------------------------------------------

/// Walk the characters whose bytes lie before offset `b`, counting lines and
/// columns (1-based; a newline starts a new line at column 1). The counters
/// saturate at the machine's limit instead of wrapping.
pub open spec fn sp_line_col(s: Seq<char>, i: int, b: int, line: int, col: int) -> (int, int)
    decreases s.len() - i,
{
    if i < 0 || i >= s.len() || b <= 0 {
        (line, col)
    } else {
        let b2 = b - char_len(s[i]);
        if s[i] == '\n' {
            sp_line_col(
                s,
                i + 1,
                b2,
                if line < usize::MAX as int {
                    line + 1
                } else {
                    line
                },
                1,
            )
        } else {
            sp_line_col(
                s,
                i + 1,
                b2,
                line,
                if col < usize::MAX as int {
                    col + 1
                } else {
                    col
                },
            )
        }
    }
}

/// The 1-based line and column of the byte offset `b` in `s`.
pub open spec fn spec_line_col(s: Seq<char>, b: int) -> (int, int) {
    sp_line_col(s, 0, b, 1, 1)
}

pub proof fn lemma_line_col_bounds(s: Seq<char>, i: int, b: int, line: int, col: int)
    requires
        1 <= line <= usize::MAX,
        1 <= col <= usize::MAX,
    ensures
        1 <= sp_line_col(s, i, b, line, col).0 <= usize::MAX,
        1 <= sp_line_col(s, i, b, line, col).1 <= usize::MAX,
    decreases s.len() - i,
{
    if !(i < 0 || i >= s.len() || b <= 0) {
        let b2 = b - char_len(s[i]);
        if s[i] == '\n' {
            lemma_line_col_bounds(
                s,
                i + 1,
                b2,
                if line < usize::MAX as int {
                    line + 1
                } else {
                    line
                },
                1,
            );
        } else {
            lemma_line_col_bounds(
                s,
                i + 1,
                b2,
                line,
                if col < usize::MAX as int {
                    col + 1
                } else {
                    col
                },
            );
        }
    }
}

/// Compute the 1-based line and column of byte offset `b` in `input`.
pub fn line_col(input: &str, b: usize) -> (r: (usize, usize))
    ensures
        (r.0 as int, r.1 as int) == spec_line_col(input@, b as int),
{
    let ghost s = input@;
    let n = input.unicode_len();
    let mut i: usize = 0;
    let mut remaining = b;
    let mut line: usize = 1;
    let mut col: usize = 1;
    while i < n && remaining > 0
        invariant
            n == s.len(),
            s == input@,
            i <= n,
            1 <= line,
            1 <= col,
            sp_line_col(s, i as int, remaining as int, line as int, col as int) == spec_line_col(
                s,
                b as int,
            ),
        decreases s.len() - i,
    {
        let c = input.get_char(i);
        let cl = crate::lexer::char_utf8_len(c);
        let ghost pre = (i as int, remaining as int, line as int, col as int);
        if c == '\n' {
            if line < usize::MAX {
                line = line + 1;
            }
            col = 1;
        } else {
            if col < usize::MAX {
                col = col + 1;
            }
        }
        if cl < remaining {
            remaining = remaining - cl;
        } else {
            remaining = 0;
        }
        i = i + 1;
        proof {
            let b2 = pre.1 - char_len(s[pre.0]);
            assert(sp_line_col(s, pre.0, pre.1, pre.2, pre.3) == sp_line_col(
                s,
                pre.0 + 1,
                b2,
                line as int,
                col as int,
            ));
            if b2 <= 0 {
                assert(remaining == 0);
                assert(sp_line_col(s, i as int, b2, line as int, col as int) == (
                    line as int,
                    col as int,
                ));
                assert(sp_line_col(s, i as int, remaining as int, line as int, col as int) == (
                    line as int,
                    col as int,
                ));
            } else {
                assert(remaining as int == b2);
            }
        }
    }
    (line, col)
}

// ---------------------------------------------------------------------------
// Decimal rendering
// ---------------------------------------------------------------------------

/// The decimal digit character of `d`.
pub open spec fn dec_digit(d: nat) -> char {
    ((0x30 + d) as u32) as char
}

/// The decimal text of `n`, most significant digit first.
pub open spec fn dec_str(n: nat) -> Seq<char>
    decreases n,
{
    if n < 10 {
        seq![dec_digit(n)]
    } else {
        dec_str(n / 10) + seq![dec_digit(n % 10)]
    }
}

fn digit_str(d: usize) -> (r: &'static str)
    requires
        d < 10,
    ensures
        r@ == seq![dec_digit(d as nat)],
{
    proof {
        reveal_strlit("0");
        reveal_strlit("1");
        reveal_strlit("2");
        reveal_strlit("3");
        reveal_strlit("4");
        reveal_strlit("5");
        reveal_strlit("6");
        reveal_strlit("7");
        reveal_strlit("8");
        reveal_strlit("9");
    }
    match d {
        0 => "0",
        1 => "1",
        2 => "2",
        3 => "3",
        4 => "4",
        5 => "5",
        6 => "6",
        7 => "7",
        8 => "8",
        _ => "9",
    }
}

/// Render `n` in decimal.
pub fn usize_to_string(n: usize) -> (r: String)
    ensures
        r@ == dec_str(n as nat),
    decreases n,
{
    if n < 10 {
        digit_str(n).to_owned()
    } else {
        usize_to_string(n / 10).concat(digit_str(n % 10))
    }
}

// ---------------------------------------------------------------------------
// The reporter
// ---------------------------------------------------------------------------

/// The plain-text rendering of one diagnostic: a title line with the kind's
/// display string and the message, the offending span's position in the
/// source, and the optional span/help/note lines.
pub open spec fn spec_render(filename: Seq<char>, input: Seq<char>, e: CompilerError) -> Seq<
    char,
> {
    let lc = spec_line_col(input, e.token.span.start as int);
    "["@ + spec_error_code_name(e.error_code) + "] "@ + e.error_message@ + "\n  at "@ + filename
        + ":"@ + dec_str(lc.0 as nat) + ":"@ + dec_str(lc.1 as nat) + (
    if e.span_message@.len() > 0 {
        "\n  "@ + e.span_message@
    } else {
        Seq::<char>::empty()
    }) + (match e.help {
        Some(h) => "\n  help: "@ + h@,
        None => Seq::<char>::empty(),
    }) + (match e.info {
        Some(n) => "\n  note: "@ + n@,
        None => Seq::<char>::empty(),
    })
}

/// Renders diagnostics against the original source text and a display name.
#[derive(Debug, Clone)]
pub struct ErrorLogger<'a> {
    pub filename: &'a str,
    pub input: &'a str,
}

impl<'a> ErrorLogger<'a> {
    pub fn new(filename: &'a str, input: &'a str) -> (r: ErrorLogger<'a>)
        ensures
            r.filename == filename,
            r.input == input,
    {
        ErrorLogger { filename, input }
    }

    /// Render one diagnostic as a source-annotated report.
    pub fn report(&self, error_detail: &CompilerError) -> (r: String)
        ensures
            r@ == spec_render(self.filename@, self.input@, *error_detail),
    {
        let lc = line_col(self.input, error_detail.token.span.start);
        proof {
            lemma_line_col_bounds(self.input@, 0, error_detail.token.span.start as int, 1, 1);
        }
        let mut out = String::from_str("[").concat(
            error_code_name(error_detail.error_code),
        ).concat("] ").concat(error_detail.error_message.as_str()).concat("\n  at ").concat(
            self.filename,
        ).concat(":").concat(usize_to_string(lc.0).as_str()).concat(":").concat(
            usize_to_string(lc.1).as_str(),
        );
        if error_detail.span_message.unicode_len() > 0 {
            out = out.concat("\n  ").concat(error_detail.span_message.as_str());
        }
        match &error_detail.help {
            Some(h) => {
                out = out.concat("\n  help: ").concat(h.as_str());
            },
            None => {},
        }
        match &error_detail.info {
            Some(n) => {
                out = out.concat("\n  note: ").concat(n.as_str());
            },
            None => {},
        }
        out
    }

    /// Render a sequence of diagnostics independently, in input order.
    pub fn report_many(&self, errors: &Vec<CompilerError>) -> (r: Vec<String>)
        ensures
            r@.len() == errors@.len(),
            forall|k: int|
                0 <= k < errors@.len() ==> (#[trigger] r@[k])@ == spec_render(
                    self.filename@,
                    self.input@,
                    errors@[k],
                ),
    {
        let mut out: Vec<String> = Vec::new();
        let mut i: usize = 0;
        while i < errors.len()
            invariant
                i <= errors@.len(),
                out@.len() == i,
                forall|k: int|
                    0 <= k < i ==> (#[trigger] out@[k])@ == spec_render(
                        self.filename@,
                        self.input@,
                        errors@[k],
                    ),
        decreases errors@.len() - i,
        {
            out.push(self.report(&errors[i]));
            i = i + 1;
        }
        out
    }
}

} // verus!
