//! The lexer: a single left-to-right scan that turns source text into a token
//! sequence. It is total: every input produces some token sequence, with
//! unrecognized characters becoming one-character `Unknown` tokens. Spans are
//! byte offsets into the UTF-8 encoding of the source.

use vstd::prelude::*;
use vstd::utf8::{encode_scalar, encode_utf8, char_is_scalar};
use crate::token::{Span, Token, TokenType, TokenV};

verus! {

// ---------------------------------------------------------------------------
// Character classes
// ---------------------------------------------------------------------------

/// The Unicode `White_Space` code points, the set `char::is_whitespace` tests.
pub open spec fn is_whitespace_char(c: char) -> bool {
    let u = c as u32;
    ||| u == 0x20
    ||| (0x09 <= u && u <= 0x0D)
    ||| u == 0x85
    ||| u == 0xA0
    ||| u == 0x1680
    ||| (0x2000 <= u && u <= 0x200A)
    ||| u == 0x2028
    ||| u == 0x2029
    ||| u == 0x202F
    ||| u == 0x205F
    ||| u == 0x3000
}

/// An ASCII letter may start an identifier.
pub open spec fn is_ident_start_char(c: char) -> bool {
    let u = c as u32;
    (0x41 <= u && u <= 0x5A) || (0x61 <= u && u <= 0x7A)
}

/// An ASCII digit.
pub open spec fn is_digit_char(c: char) -> bool {
    let u = c as u32;
    0x30 <= u && u <= 0x39
}

/// ASCII alphanumeric or underscore: may continue an identifier.
pub open spec fn is_ident_cont_char(c: char) -> bool {
    is_ident_start_char(c) || is_digit_char(c) || c == '_'
}

/// The classes of characters the lexer scans greedily over.
#[derive(Clone, Copy, Debug, PartialEq, Eq, Structural)]
pub enum CharClass {
    IdentContinue,
    Digit,
}

/// Membership of a character in a scanning class.
pub open spec fn char_in_class(cls: CharClass, c: char) -> bool {
    match cls {
        CharClass::IdentContinue => is_ident_cont_char(c),
        CharClass::Digit => is_digit_char(c),
    }
}

pub fn char_is_whitespace(c: char) -> (r: bool)
    ensures
        r == is_whitespace_char(c),
{
    let u = c as u32;
    u == 0x20 || (0x09 <= u && u <= 0x0D) || u == 0x85 || u == 0xA0 || u == 0x1680
        || (0x2000 <= u && u <= 0x200A) || u == 0x2028 || u == 0x2029 || u == 0x202F
        || u == 0x205F || u == 0x3000
}

pub fn char_matches_class(cls: CharClass, c: char) -> (r: bool)
    ensures
        r == char_in_class(cls, c),
{
    let u = c as u32;
    match cls {
        CharClass::IdentContinue => {
            (0x41 <= u && u <= 0x5A) || (0x61 <= u && u <= 0x7A) || (0x30 <= u && u <= 0x39)
                || c == '_'
        },
        CharClass::Digit => 0x30 <= u && u <= 0x39,
    }
}

// ---------------------------------------------------------------------------
// Byte offsets
// ---------------------------------------------------------------------------

/// Number of bytes of the UTF-8 encoding of one character.
pub open spec fn char_len(c: char) -> int {
    let u = c as u32;
    if u < 0x80 {
        1
    } else if u < 0x800 {
        2
    } else if u < 0x10000 {
        3
    } else {
        4
    }
}

/// `char_len` agrees with the length of the character's UTF-8 encoding.
pub proof fn lemma_char_len_is_encoding_len(c: char)
    ensures
        char_len(c) == encode_scalar(c as u32).len(),
{
    char_is_scalar(c);
}

pub fn char_utf8_len(c: char) -> (r: usize)
    ensures
        r == char_len(c),
{
    let u = c as u32;
    if u < 0x80 {
        1
    } else if u < 0x800 {
        2
    } else if u < 0x10000 {
        3
    } else {
        4
    }
}

/// The byte offset of character index `i` in the UTF-8 encoding of `s`.
pub open spec fn byte_index(s: Seq<char>, i: int) -> int {
    encode_utf8(s.take(i)).len() as int
}

/// UTF-8 encoding distributes over concatenation.
pub proof fn lemma_encode_utf8_concat(a: Seq<char>, b: Seq<char>)
    ensures
        encode_utf8(a + b) == encode_utf8(a) + encode_utf8(b),
    decreases a.len(),
{
    if a.len() == 0 {
        assert(a + b =~= b);
        assert(encode_utf8(a) + encode_utf8(b) =~= encode_utf8(b));
    } else {
        assert((a + b).drop_first() =~= a.drop_first() + b);
        lemma_encode_utf8_concat(a.drop_first(), b);
        assert(encode_utf8(a + b) =~= encode_utf8(a) + encode_utf8(b));
    }
}

/// Crossing one character advances the byte offset by that character's length.
pub proof fn lemma_byte_index_step(s: Seq<char>, i: int)
    requires
        0 <= i < s.len(),
    ensures
        byte_index(s, i + 1) == byte_index(s, i) + char_len(s[i]),
{
    assert(s.take(i + 1) =~= s.take(i) + seq![s[i]]);
    lemma_encode_utf8_concat(s.take(i), seq![s[i]]);
    assert(seq![s[i]].drop_first() =~= Seq::<char>::empty());
    assert(encode_utf8(Seq::<char>::empty()) =~= Seq::<u8>::empty());
    assert(seq![s[i]][0] == s[i]);
    assert(encode_utf8(seq![s[i]]) =~= encode_scalar(s[i] as u32) + encode_utf8(seq![s[i]].drop_first()));
    assert(encode_utf8(seq![s[i]]) =~= encode_scalar(s[i] as u32));
    lemma_char_len_is_encoding_len(s[i]);
}

/// A prefix's encoding is no longer than the whole encoding.
pub proof fn lemma_byte_index_le_total(s: Seq<char>, i: int)
    requires
        0 <= i <= s.len(),
    ensures
        0 <= byte_index(s, i) <= encode_utf8(s).len(),
{
    assert(s =~= s.take(i) + s.skip(i));
    lemma_encode_utf8_concat(s.take(i), s.skip(i));
}

/// Byte offsets grow with character indices.
pub proof fn lemma_byte_index_monotonic(s: Seq<char>, i: int, j: int)
    requires
        0 <= i <= j <= s.len(),
    ensures
        byte_index(s, i) <= byte_index(s, j),
    decreases j - i,
{
    if i < j {
        lemma_byte_index_step(s, i);
        lemma_byte_index_monotonic(s, i + 1, j);
    }
}

// ---------------------------------------------------------------------------
// The specification lexer
// ---------------------------------------------------------------------------

/// First index at or after `j` whose character falls outside the class.
pub open spec fn scan_end(s: Seq<char>, j: int, cls: CharClass) -> int
    decreases s.len() - j,
{
    if j < 0 || j >= s.len() {
        j
    } else if char_in_class(cls, s[j]) {
        scan_end(s, j + 1, cls)
    } else {
        j
    }
}

pub proof fn lemma_scan_end_bounds(s: Seq<char>, j: int, cls: CharClass)
    requires
        0 <= j <= s.len(),
    ensures
        j <= scan_end(s, j, cls) <= s.len(),
    decreases s.len() - j,
{
    if j < s.len() && char_in_class(cls, s[j]) {
        lemma_scan_end_bounds(s, j + 1, cls);
    }
}

/// Keyword recognition: a fixed lookup from exact identifier text to kind.
pub open spec fn keyword_type(text: Seq<char>) -> Option<TokenType> {
    if text == "let"@ {
        Some(TokenType::Let)
    } else if text == "function"@ {
        Some(TokenType::Function)
    } else if text == "return"@ {
        Some(TokenType::Return)
    } else if text == "if"@ {
        Some(TokenType::If)
    } else if text == "else"@ {
        Some(TokenType::Else)
    } else if text == "for"@ {
        Some(TokenType::For)
    } else if text == "while"@ {
        Some(TokenType::While)
    } else if text == "break"@ {
        Some(TokenType::Break)
    } else if text == "continue"@ {
        Some(TokenType::Continue)
    } else {
        None
    }
}

/// Kind and end index of the token that starts at index `i` of `s`.
/// Compound two-character operators are disambiguated by one-character
/// lookahead before falling back to the single-character token.
pub open spec fn scan_token(s: Seq<char>, i: int) -> (TokenType, int)
    recommends
        0 <= i < s.len(),
{
    let c = s[i];
    if c == '@' {
        (TokenType::At, i + 1)
    } else if c == ',' {
        (TokenType::Comma, i + 1)
    } else if c == ':' {
        (TokenType::Colon, i + 1)
    } else if c == '{' {
        (TokenType::LeftBrace, i + 1)
    } else if c == '(' {
        (TokenType::LeftParen, i + 1)
    } else if c == ')' {
        (TokenType::RightParen, i + 1)
    } else if c == '}' {
        (TokenType::RightBrace, i + 1)
    } else if c == ';' {
        (TokenType::Semicolon, i + 1)
    } else if c == '*' {
        (TokenType::Asterisk, i + 1)
    } else if c == '/' {
        (TokenType::Slash, i + 1)
    } else if c == '=' {
        if i + 1 < s.len() && s[i + 1] == '=' {
            (TokenType::EqualsEquals, i + 2)
        } else {
            (TokenType::Equals, i + 1)
        }
    } else if c == '&' {
        if i + 1 < s.len() && s[i + 1] == '&' {
            (TokenType::AmpersandAmpersand, i + 2)
        } else {
            (TokenType::Ampersand, i + 1)
        }
    } else if c == '|' {
        if i + 1 < s.len() && s[i + 1] == '|' {
            (TokenType::PipePipe, i + 2)
        } else {
            (TokenType::Pipe, i + 1)
        }
    } else if c == '!' {
        if i + 1 < s.len() && s[i + 1] == '=' {
            (TokenType::BangEquals, i + 2)
        } else {
            (TokenType::Unknown, i + 1)
        }
    } else if is_ident_start_char(c) {
        let k = scan_end(s, i + 1, CharClass::IdentContinue);
        (
            match keyword_type(s.subrange(i, k)) {
                Some(t) => t,
                None => TokenType::Identifier,
            },
            k,
        )
    } else if is_digit_char(c) {
        (TokenType::IntegerLiteral, scan_end(s, i + 1, CharClass::Digit))
    } else {
        (TokenType::Unknown, i + 1)
    }
}

/// The token that starts at character index `i` and ends at `k`.
pub open spec fn mk_token_v(s: Seq<char>, i: int, t: TokenType, k: int) -> TokenV {
    TokenV { type_: t, text: s.subrange(i, k), start: byte_index(s, i), end: byte_index(s, k) }
}

/// The token sequence produced from character index `i` onward: skip
/// whitespace, emit the token that starts at the first non-whitespace
/// character, continue after it.
pub open spec fn spec_lex_from(s: Seq<char>, i: int) -> Seq<TokenV>
    decreases s.len() - i,
    via spec_lex_from_decreases
{
    if i < 0 || i >= s.len() {
        Seq::empty()
    } else if is_whitespace_char(s[i]) {
        spec_lex_from(s, i + 1)
    } else {
        let (t, k) = scan_token(s, i);
        seq![mk_token_v(s, i, t, k)] + spec_lex_from(s, k)
    }
}

#[via_fn]
proof fn spec_lex_from_decreases(s: Seq<char>, i: int) {
    if 0 <= i < s.len() && !is_whitespace_char(s[i]) {
        lemma_scan_end_bounds(s, i + 1, CharClass::IdentContinue);
        lemma_scan_end_bounds(s, i + 1, CharClass::Digit);
    }
}

pub proof fn lemma_scan_token_bounds(s: Seq<char>, i: int)
    requires
        0 <= i < s.len(),
    ensures
        i < scan_token(s, i).1 <= s.len(),
{
    lemma_scan_end_bounds(s, i + 1, CharClass::IdentContinue);
    lemma_scan_end_bounds(s, i + 1, CharClass::Digit);
}

/// The tokens of the whole source text. Lexing is a pure function of the
/// input text, so re-lexing the same text always produces this sequence.
pub open spec fn spec_lex(s: Seq<char>) -> Seq<TokenV> {
    spec_lex_from(s, 0)
}

/// The images of a sequence of concrete tokens.
pub open spec fn tokens_view(ts: Seq<Token>) -> Seq<TokenV> {
    ts.map_values(|t: Token| t@)
}

// ---------------------------------------------------------------------------
// String helpers
// ---------------------------------------------------------------------------

/// Character-wise string equality.
pub fn str_eq(a: &str, b: &str) -> (r: bool)
    ensures
        r == (a@ == b@),
{
    let alen = a.unicode_len();
    let blen = b.unicode_len();
    if alen != blen {
        assert(a@.len() != b@.len());
        return false;
    }
    let mut i: usize = 0;
    while i < alen
        invariant
            alen == a@.len(),
            alen == b@.len(),
            i <= alen,
            forall|k: int| 0 <= k < i ==> a@[k] == b@[k],
        decreases alen - i,
    {
        if a.get_char(i) != b.get_char(i) {
            assert(a@[i as int] != b@[i as int]);
            return false;
        }
        i = i + 1;
    }
    assert(a@ =~= b@);
    true
}


pub fn char_is_ident_start(c: char) -> (r: bool)
    ensures
        r == is_ident_start_char(c),
{
    let u = c as u32;
    (0x41 <= u && u <= 0x5A) || (0x61 <= u && u <= 0x7A)
}

pub fn char_is_digit(c: char) -> (r: bool)
    ensures
        r == is_digit_char(c),
{
    let u = c as u32;
    0x30 <= u && u <= 0x39
}

/// Keyword recognition on a concrete lexeme.
pub fn keyword_lookup(text: &str) -> (r: Option<TokenType>)
    ensures
        r == keyword_type(text@),
{
    if str_eq(text, "let") {
        Some(TokenType::Let)
    } else if str_eq(text, "function") {
        Some(TokenType::Function)
    } else if str_eq(text, "return") {
        Some(TokenType::Return)
    } else if str_eq(text, "if") {
        Some(TokenType::If)
    } else if str_eq(text, "else") {
        Some(TokenType::Else)
    } else if str_eq(text, "for") {
        Some(TokenType::For)
    } else if str_eq(text, "while") {
        Some(TokenType::While)
    } else if str_eq(text, "break") {
        Some(TokenType::Break)
    } else if str_eq(text, "continue") {
        Some(TokenType::Continue)
    } else {
        None
    }
}

// ---------------------------------------------------------------------------
// The executable lexer
// ---------------------------------------------------------------------------

/// Scans source text left to right, maintaining a character index and the
/// matching byte offset, and collects the tokens it produces.
#[derive(Debug)]
pub struct Lexer<'a> {
    pub input: &'a str,
    pub idx: usize,
    pub position: usize,
    pub tokens: Vec<Token>,
}

impl<'a> Lexer<'a> {
    /// The cursor is inside the text and the byte offset matches the
    /// character index; the whole encoding fits in a `usize`.
    pub open spec fn wf(&self) -> bool {
        &&& self.idx <= self.input@.len()
        &&& self.position == byte_index(self.input@, self.idx as int)
        &&& encode_utf8(self.input@).len() <= usize::MAX
    }

    pub fn new() -> (r: Lexer<'a>)
        ensures
            r.wf(),
            r.tokens@.len() == 0,
            r.idx == 0,
    {
        proof {
            reveal_strlit("");
            assert(""@ =~= Seq::<char>::empty());
            assert(Seq::<char>::empty().take(0) =~= Seq::<char>::empty());
        }
        Lexer { input: "", idx: 0, position: 0, tokens: Vec::new() }
    }

    /// The next character, without consuming it.
    fn peek_char(&self) -> (r: Option<char>)
        requires
            self.wf(),
        ensures
            match r {
                Some(c) => self.idx < self.input@.len() && c == self.input@[self.idx as int],
                None => self.idx == self.input@.len(),
            },
    {
        if self.idx < self.input.unicode_len() {
            Some(self.input.get_char(self.idx))
        } else {
            None
        }
    }

    /// Consume one character, advancing the byte offset by its UTF-8 length.
    pub fn read_char(&mut self) -> (r: Option<char>)
        requires
            old(self).wf(),
        ensures
            final(self).wf(),
            final(self).input == old(self).input,
            final(self).tokens == old(self).tokens,
            match r {
                Some(c) => {
                    &&& old(self).idx < old(self).input@.len()
                    &&& c == old(self).input@[old(self).idx as int]
                    &&& final(self).idx == old(self).idx + 1
                },
                None => old(self).idx == old(self).input@.len() && *final(self) == *old(self),
            },
    {
        let ghost s = self.input@;
        let ghost i = self.idx as int;
        if self.idx < self.input.unicode_len() {
            let c = self.input.get_char(self.idx);
            proof {
                lemma_byte_index_step(s, i);
                lemma_byte_index_le_total(s, i + 1);
                lemma_byte_index_monotonic(s, i + 1, s.len() as int);
            }
            self.idx = self.idx + 1;
            self.position = self.position + char_utf8_len(c);
            Some(c)
        } else {
            None
        }
    }

    /// Consume contiguous whitespace; it produces no token.
    pub fn skip_whitespace(&mut self)
        requires
            old(self).wf(),
        ensures
            final(self).wf(),
            final(self).input == old(self).input,
            final(self).tokens == old(self).tokens,
            old(self).idx <= final(self).idx,
            spec_lex_from(final(self).input@, final(self).idx as int) == spec_lex_from(
                old(self).input@,
                old(self).idx as int,
            ),
            final(self).idx == final(self).input@.len() || !is_whitespace_char(
                final(self).input@[final(self).idx as int],
            ),
    {
        let ghost s = self.input@;
        let ghost i0 = self.idx as int;
        loop
            invariant
                self.wf(),
                self.input@ == s,
                self.input == old(self).input,
                self.tokens == old(self).tokens,
                0 <= i0 <= self.idx,
                spec_lex_from(s, self.idx as int) == spec_lex_from(s, i0),
            ensures
                self.wf(),
                self.input == old(self).input,
                self.tokens == old(self).tokens,
                i0 <= self.idx,
                spec_lex_from(s, self.idx as int) == spec_lex_from(s, i0),
                self.idx == s.len() || !is_whitespace_char(s[self.idx as int]),
            decreases s.len() - self.idx,
        {
            match self.peek_char() {
                Some(c) => {
                    if char_is_whitespace(c) {
                        let ghost i = self.idx as int;
                        self.read_char();
                        assert(spec_lex_from(s, i) == spec_lex_from(s, i + 1));
                    } else {
                        break ;
                    }
                },
                None => {
                    break ;
                },
            }
        }
    }

    /// Greedily consume the characters of one class, returning the lexeme
    /// begun by `c` (already consumed by the caller).
    pub fn continue_while(&mut self, c: char, cls: CharClass) -> (r: Vec<char>)
        requires
            old(self).wf(),
        ensures
            final(self).wf(),
            final(self).input == old(self).input,
            final(self).tokens == old(self).tokens,
            final(self).idx == scan_end(old(self).input@, old(self).idx as int, cls),
            old(self).idx <= final(self).idx <= old(self).input@.len(),
            r@ == seq![c] + old(self).input@.subrange(
                old(self).idx as int,
                final(self).idx as int,
            ),
    {
        let ghost s = self.input@;
        let ghost i0 = self.idx as int;
        let mut v: Vec<char> = Vec::new();
        v.push(c);
        loop
            invariant
                self.wf(),
                self.input@ == s,
                self.input == old(self).input,
                self.tokens == old(self).tokens,
                0 <= i0 <= self.idx <= s.len(),
                scan_end(s, self.idx as int, cls) == scan_end(s, i0, cls),
                v@ == seq![c] + s.subrange(i0, self.idx as int),
            ensures
                self.wf(),
                self.input == old(self).input,
                self.tokens == old(self).tokens,
                self.idx == scan_end(s, i0, cls),
                v@ == seq![c] + s.subrange(i0, self.idx as int),
            decreases s.len() - self.idx,
        {
            match self.peek_char() {
                Some(ch) => {
                    if char_matches_class(cls, ch) {
                        let ghost i = self.idx as int;
                        self.read_char();
                        v.push(ch);
                        proof {
                            assert(scan_end(s, i, cls) == scan_end(s, i + 1, cls));
                            assert(s.subrange(i0, i + 1) =~= s.subrange(i0, i) + seq![s[i]]);
                            assert(v@ =~= seq![c] + s.subrange(i0, i + 1));
                        }
                    } else {
                        assert(scan_end(s, self.idx as int, cls) == self.idx as int);
                        break ;
                    }
                },
                None => {
                    assert(scan_end(s, self.idx as int, cls) == self.idx as int);
                    break ;
                },
            }
        }
        v
    }

    /// True when the next (unconsumed) character is exactly `c0`.
    fn next_char_is(&self, c0: char) -> (r: bool)
        requires
            self.wf(),
        ensures
            r == (self.idx < self.input@.len() && self.input@[self.idx as int] == c0),
    {
        match self.peek_char() {
            Some(c) => c == c0,
            None => false,
        }
    }

    /// Produce the next token, or `None` when only whitespace (or nothing)
    /// remains. The token is exactly the head of the specification lexer's
    /// output for the remaining text.
    pub fn next(&mut self) -> (r: Option<Token>)
        requires
            old(self).wf(),
        ensures
            final(self).wf(),
            final(self).input == old(self).input,
            final(self).tokens == old(self).tokens,
            old(self).idx <= final(self).idx,
            match r {
                Some(t) => {
                    &&& spec_lex_from(old(self).input@, old(self).idx as int).len() > 0
                    &&& t@ == spec_lex_from(old(self).input@, old(self).idx as int)[0]
                    &&& spec_lex_from(old(self).input@, final(self).idx as int)
                        == spec_lex_from(old(self).input@, old(self).idx as int).drop_first()
                    &&& old(self).idx < final(self).idx
                },
                None => {
                    &&& spec_lex_from(old(self).input@, old(self).idx as int).len() == 0
                    &&& final(self).idx == old(self).input@.len()
                },
            },
    {
        let ghost s = self.input@;
        self.skip_whitespace();
        let start_position = self.position;
        let start_idx = self.idx;
        let ghost j = self.idx as int;
        match self.read_char() {
            None => None,
            Some(c) => {
                let type_: TokenType = if c == '@' {
                    TokenType::At
                } else if c == ',' {
                    TokenType::Comma
                } else if c == ':' {
                    TokenType::Colon
                } else if c == '{' {
                    TokenType::LeftBrace
                } else if c == '(' {
                    TokenType::LeftParen
                } else if c == ')' {
                    TokenType::RightParen
                } else if c == '}' {
                    TokenType::RightBrace
                } else if c == ';' {
                    TokenType::Semicolon
                } else if c == '*' {
                    TokenType::Asterisk
                } else if c == '/' {
                    TokenType::Slash
                } else if c == '=' {
                    if self.next_char_is('=') {
                        self.read_char();
                        TokenType::EqualsEquals
                    } else {
                        TokenType::Equals
                    }
                } else if c == '&' {
                    if self.next_char_is('&') {
                        self.read_char();
                        TokenType::AmpersandAmpersand
                    } else {
                        TokenType::Ampersand
                    }
                } else if c == '|' {
                    if self.next_char_is('|') {
                        self.read_char();
                        TokenType::PipePipe
                    } else {
                        TokenType::Pipe
                    }
                } else if c == '!' {
                    if self.next_char_is('=') {
                        self.read_char();
                        TokenType::BangEquals
                    } else {
                        TokenType::Unknown
                    }
                } else if char_is_ident_start(c) {
                    self.continue_while(c, CharClass::IdentContinue);
                    let text = self.input.substring_char(start_idx, self.idx);
                    match keyword_lookup(text) {
                        Some(k) => k,
                        None => TokenType::Identifier,
                    }
                } else if char_is_digit(c) {
                    self.continue_while(c, CharClass::Digit);
                    TokenType::IntegerLiteral
                } else {
                    TokenType::Unknown
                };
                let value = self.input.substring_char(start_idx, self.idx).to_owned();
                let token = Token {
                    type_,
                    value,
                    span: Span { start: start_position, end: self.position },
                };
                proof {
                    let (tt, k) = scan_token(s, j);
                    assert(type_ == tt);
                    assert(self.idx as int == k);
                    assert(token@ == mk_token_v(s, j, tt, k));
                    assert(spec_lex_from(s, j) == seq![mk_token_v(s, j, tt, k)] + spec_lex_from(s, k));
                    assert(spec_lex_from(s, j)[0] == token@);
                    assert(spec_lex_from(s, self.idx as int) =~= spec_lex_from(s, j).drop_first());
                }
                Some(token)
            },
        }
    }

    /// Tokenize `input` from the start, replacing any previously collected
    /// tokens. The collected tokens are exactly the specification lexer's
    /// output, so lexing is a pure, deterministic function of the text.
    pub fn lex(&mut self, input: &'a str)
        requires
            encode_utf8(input@).len() <= usize::MAX,
        ensures
            final(self).wf(),
            final(self).input == input,
            tokens_view(final(self).tokens@) == spec_lex(input@),
    {
        let ghost s = input@;
        self.tokens = Vec::new();
        self.input = input;
        self.idx = 0;
        self.position = 0;
        proof {
            assert(s.take(0) =~= Seq::<char>::empty());
            assert(encode_utf8(Seq::<char>::empty()).len() == 0);
            assert(tokens_view(self.tokens@) =~= Seq::<TokenV>::empty());
            assert(tokens_view(self.tokens@) + spec_lex_from(s, 0) =~= spec_lex(s));
        }
        loop
            invariant
                self.wf(),
                self.input == input,
                self.input@ == s,
                tokens_view(self.tokens@) + spec_lex_from(s, self.idx as int) == spec_lex(s),
            ensures
                self.wf(),
                self.input == input,
                tokens_view(self.tokens@) == spec_lex(s),
            decreases s.len() - self.idx,
        {
            let ghost pre = tokens_view(self.tokens@);
            let ghost i = self.idx as int;
            match self.next() {
                Some(t) => {
                    let ghost tv = t@;
                    self.tokens.push(t);
                    proof {
                        assert(tokens_view(self.tokens@) =~= pre.push(tv));
                        assert(spec_lex_from(s, i) =~= seq![tv] + spec_lex_from(s, self.idx as int));
                        assert(tokens_view(self.tokens@) + spec_lex_from(s, self.idx as int) =~= pre
                            + spec_lex_from(s, i));
                    }
                },
                None => {
                    proof {
                        assert(tokens_view(self.tokens@) =~= pre + spec_lex_from(s, i));
                    }
                    break ;
                },
            }
        }
    }
}

impl<'a> Lexer<'a> {
    /// A fresh cursor over the collected tokens.
    pub fn get_tokens_peekable(&self) -> (r: crate::stream::TokenStream)
        ensures
            r.wf(),
            r.toks() == tokens_view(self.tokens@),
            r.pos == 0,
    {
        let mut v: Vec<Token> = Vec::new();
        let mut i: usize = 0;
        proof {
            assert(tokens_view(v@) =~= tokens_view(self.tokens@).take(0));
        }
        while i < self.tokens.len()
            invariant
                i <= self.tokens@.len(),
                v@.len() == i,
                tokens_view(v@) == tokens_view(self.tokens@).take(i as int),
            decreases self.tokens@.len() - i,
        {
            v.push(self.tokens[i].clone());
            i = i + 1;
            proof {
                assert(tokens_view(v@) =~= tokens_view(self.tokens@).take(i as int));
            }
        }
        proof {
            assert(tokens_view(v@) =~= tokens_view(self.tokens@));
        }
        crate::stream::TokenStream::new(v)
    }
}

// ---------------------------------------------------------------------------
// Laws of the lexer
// ---------------------------------------------------------------------------

/// Lexing is pure and deterministic: any two token sequences obtained from
/// the same text are identical (same kinds, text, spans). Together with
/// `Lexer::lex`, whose output is exactly `spec_lex` of its input, this says
/// that tokenizing the same text twice yields identical token sequences.
pub proof fn lemma_lex_deterministic(s: Seq<char>, t1: Seq<TokenV>, t2: Seq<TokenV>)
    requires
        t1 == spec_lex(s),
        t2 == spec_lex(s),
    ensures
        t1 == t2,
{
}

/// A token's text is a slice of the source and its span is the matching
/// byte-offset range.
pub open spec fn token_covered(s: Seq<char>, t: TokenV) -> bool {
    exists|ci: int, cj: int|
        {
            &&& 0 <= ci <= cj <= s.len()
            &&& t.text == #[trigger] s.subrange(ci, cj)
            &&& t.start == byte_index(s, ci)
            &&& t.end == byte_index(s, cj)
        }
}

proof fn lemma_lex_span_coverage_from(s: Seq<char>, i: int)
    requires
        0 <= i <= s.len(),
    ensures
        forall|n: int|
            0 <= n < spec_lex_from(s, i).len() ==> token_covered(
                s,
                #[trigger] spec_lex_from(s, i)[n],
            ),
    decreases s.len() - i,
{
    if i >= s.len() {
    } else if is_whitespace_char(s[i]) {
        lemma_lex_span_coverage_from(s, i + 1);
        assert forall|n: int| 0 <= n < spec_lex_from(s, i).len() implies token_covered(
            s,
            #[trigger] spec_lex_from(s, i)[n],
        ) by {
            assert(spec_lex_from(s, i)[n] == spec_lex_from(s, i + 1)[n]);
        }
    } else {
        let (tt, k) = scan_token(s, i);
        lemma_scan_token_bounds(s, i);
        let first = mk_token_v(s, i, tt, k);
        assert(first.text == s.subrange(i, k));
        assert(token_covered(s, first));
        lemma_lex_span_coverage_from(s, k);
        assert forall|n: int| 0 <= n < spec_lex_from(s, i).len() implies token_covered(
            s,
            #[trigger] spec_lex_from(s, i)[n],
        ) by {
            if n == 0 {
                assert(spec_lex_from(s, i)[0] == first);
            } else {
                assert(spec_lex_from(s, i)[n] == spec_lex_from(s, k)[n - 1]);
            }
        }
    }
}

/// Span coverage: for every token of the lexed text, the token's lexeme is
/// exactly the slice of the source's UTF-8 encoding between the byte offsets
/// `span.start` and `span.end`.
pub proof fn lemma_lex_span_coverage(s: Seq<char>, n: int)
    requires
        0 <= n < spec_lex(s).len(),
    ensures
        0 <= spec_lex(s)[n].start <= spec_lex(s)[n].end <= encode_utf8(s).len(),
        encode_utf8(spec_lex(s)[n].text) == encode_utf8(s).subrange(
            spec_lex(s)[n].start,
            spec_lex(s)[n].end,
        ),
{
    lemma_lex_span_coverage_from(s, 0);
    let t = spec_lex(s)[n];
    assert(token_covered(s, t));
    let (ci, cj): (int, int) = choose|ci: int, cj: int|
        {
            &&& 0 <= ci <= cj <= s.len()
            &&& t.text == #[trigger] s.subrange(ci, cj)
            &&& t.start == byte_index(s, ci)
            &&& t.end == byte_index(s, cj)
        };
    assert(s.take(cj) =~= s.take(ci) + s.subrange(ci, cj));
    lemma_encode_utf8_concat(s.take(ci), s.subrange(ci, cj));
    assert(s =~= s.take(cj) + s.skip(cj));
    lemma_encode_utf8_concat(s.take(cj), s.skip(cj));
    assert(encode_utf8(s) =~= encode_utf8(s.take(ci)) + encode_utf8(s.subrange(ci, cj))
        + encode_utf8(s.skip(cj)));
    assert(encode_utf8(t.text) =~= encode_utf8(s).subrange(t.start, t.end));
}

} // verus!
