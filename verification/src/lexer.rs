//! The lexer: a pull-based scanner over source text that produces one
//! token at a time, tracking line and column for diagnostics.
//!
//! `next_token` never fails: an unrecognized character becomes an
//! `Illegal` token, and the end of the input is reported as an `Eof`
//! token, so error policy is left entirely to the parser.  Its behaviour
//! is specified exactly by `spec_next_token` over the `LexerModel` value
//! of the scanner state.

use vstd::prelude::*;
use vstd::string::*;

use crate::chars::char_string;
use crate::chars::chars_to_string;
use crate::chars::is_digit;
use crate::chars::is_digit_char;
use crate::chars::is_space;
use crate::chars::is_space_char;
use crate::chars::is_alphanumeric_char;
use crate::chars::str_to_chars;
use crate::chars::vec_substring;
use crate::token::eof_token;
use crate::token::lookup_identifier;
use crate::token::spec_lookup;
use crate::token::SpecToken;
use crate::token::Token;
use crate::token::TokenType;

verus! {

/// The scanner state: the input, the index of the current character, and
/// the 1-based line and the column of the current character.
pub struct LexerModel {
    pub input: Seq<char>,
    pub pos: int,
    pub line: int,
    pub col: int,
}

impl LexerModel {
    /// The state is within the input, and the line and column counters
    /// cannot outrun the characters consumed.
    pub open spec fn wf(self) -> bool {
        &&& 0 <= self.pos <= self.input.len()
        &&& self.input.len() < usize::MAX
        &&& 1 <= self.line <= self.pos + 1
        &&& 0 <= self.col <= self.pos + 1
    }
}

/// The scanner state at the start of `input`.
pub open spec fn lex_init(input: Seq<char>) -> LexerModel {
    LexerModel { input, pos: 0, line: 1, col: 1 }
}

/// The state after skipping white space; a newline steps to the next
/// line and resets the column.
pub open spec fn spec_skip_ws(m: LexerModel) -> LexerModel
    decreases m.input.len() - m.pos,
{
    if 0 <= m.pos < m.input.len() && is_space_char(m.input[m.pos]) {
        if m.input[m.pos] == '\n' {
            spec_skip_ws(LexerModel { input: m.input, pos: m.pos + 1, line: m.line + 1, col: 1 })
        } else {
            spec_skip_ws(
                LexerModel { input: m.input, pos: m.pos + 1, line: m.line, col: m.col + 1 },
            )
        }
    } else {
        m
    }
}

/// The first position at or after `i` holding the closing delimiter or a
/// line terminator, or the end of the input.
pub open spec fn delim_end(s: Seq<char>, i: int, end: char) -> int
    decreases s.len() - i,
{
    if 0 <= i < s.len() {
        if s[i] == end || s[i] == '\n' || s[i] == '\r' {
            i
        } else {
            delim_end(s, i + 1, end)
        }
    } else {
        s.len() as int
    }
}

/// The first position at or after `i` holding a line terminator, or the
/// end of the input.
pub open spec fn comment_end(s: Seq<char>, i: int) -> int
    decreases s.len() - i,
{
    if 0 <= i < s.len() {
        if s[i] == '\n' || s[i] == '\r' {
            i
        } else {
            comment_end(s, i + 1)
        }
    } else {
        s.len() as int
    }
}

/// The characters a number token is made of: digits and dots, without
/// further shape checks; rejecting a malformed number is the number
/// parser's job.
pub open spec fn spec_number_char(c: char) -> bool {
    is_digit_char(c) || c == '.'
}

/// The first position at or after `i` not holding a number character.
pub open spec fn number_end(s: Seq<char>, i: int) -> int
    decreases s.len() - i,
{
    if 0 <= i < s.len() {
        if spec_number_char(s[i]) {
            number_end(s, i + 1)
        } else {
            i
        }
    } else {
        s.len() as int
    }
}

/// The characters an identifier may continue with.
pub open spec fn spec_ident_char(c: char) -> bool {
    is_alphanumeric_char(c) || c == '.' || c == '-' || c == '_' || c == '/' || c == '%'
}

/// The first position at or after `i` not holding an identifier
/// character.
pub open spec fn ident_end(s: Seq<char>, i: int) -> int
    decreases s.len() - i,
{
    if 0 <= i < s.len() {
        if spec_ident_char(s[i]) {
            ident_end(s, i + 1)
        } else {
            i
        }
    } else {
        s.len() as int
    }
}

/// A single-character token at the current position.
pub open spec fn op_token(kind: TokenType, m: LexerModel) -> SpecToken {
    SpecToken { kind, literal: seq![m.input[m.pos]], line: m.line, col: m.col }
}

/// The state after consuming the characters up to `e` exclusive.
pub open spec fn consumed_to(m: LexerModel, e: int) -> LexerModel {
    LexerModel { input: m.input, pos: e, line: m.line, col: m.col + (e - m.pos) }
}

/// The state after a delimited literal ending at `e`: the closing
/// delimiter (or the line terminator standing in for it) is consumed
/// too, unless the literal ran off the end of the input.
pub open spec fn consumed_delimited(m: LexerModel, e: int) -> LexerModel {
    if e < m.input.len() {
        LexerModel { input: m.input, pos: e + 1, line: m.line, col: m.col + (e - m.pos) + 1 }
    } else {
        LexerModel { input: m.input, pos: e, line: m.line, col: m.col + (e - m.pos) }
    }
}

/// One step of the scanner: the token at the current position, after
/// white space, and the state that follows it.  The scanning rules, in
/// priority order: end of input, single-character operators, `#`
/// comments, `{` blobs, delimited literals, numbers, identifiers, and
/// finally a one-character `Illegal` token.
pub open spec fn spec_next_token(m: LexerModel) -> (SpecToken, LexerModel) {
    let m1 = spec_skip_ws(m);
    let s = m1.input;
    let p = m1.pos;
    if p >= s.len() {
        (eof_token(), m1)
    } else {
        let c = s[p];
        if c == '@' {
            (op_token(TokenType::At, m1), consumed_to(m1, p + 1))
        } else if c == '=' {
            (op_token(TokenType::Equal, m1), consumed_to(m1, p + 1))
        } else if c == ']' {
            (op_token(TokenType::RightBracket, m1), consumed_to(m1, p + 1))
        } else if c == '[' {
            (op_token(TokenType::LeftBracket, m1), consumed_to(m1, p + 1))
        } else if c == '-' {
            (op_token(TokenType::Minus, m1), consumed_to(m1, p + 1))
        } else if c == '%' {
            (op_token(TokenType::Percent, m1), consumed_to(m1, p + 1))
        } else if c == '^' {
            (op_token(TokenType::Caret, m1), consumed_to(m1, p + 1))
        } else if c == '\\' {
            (op_token(TokenType::Backslash, m1), consumed_to(m1, p + 1))
        } else if c == '#' {
            let e = comment_end(s, p + 1);
            (
                SpecToken {
                    kind: TokenType::Comment,
                    literal: s.subrange(p + 1, e),
                    line: m1.line,
                    col: m1.col,
                },
                consumed_to(m1, e),
            )
        } else if c == '+' {
            (op_token(TokenType::Plus, m1), consumed_to(m1, p + 1))
        } else if c == '{' {
            let e = delim_end(s, p + 1, '}');
            (
                SpecToken {
                    kind: TokenType::Json,
                    literal: "{"@ + s.subrange(p + 1, e) + "}"@,
                    line: m1.line,
                    col: m1.col,
                },
                consumed_delimited(m1, e),
            )
        } else if c == '`' {
            let e = delim_end(s, p + 1, '`');
            (
                SpecToken {
                    kind: TokenType::String,
                    literal: s.subrange(p + 1, e),
                    line: m1.line,
                    col: m1.col,
                },
                consumed_delimited(m1, e),
            )
        } else if c == '\'' {
            let e = delim_end(s, p + 1, '\'');
            (
                SpecToken {
                    kind: TokenType::String,
                    literal: s.subrange(p + 1, e),
                    line: m1.line,
                    col: m1.col,
                },
                consumed_delimited(m1, e),
            )
        } else if c == '"' {
            let e = delim_end(s, p + 1, '"');
            (
                SpecToken {
                    kind: TokenType::String,
                    literal: s.subrange(p + 1, e),
                    line: m1.line,
                    col: m1.col,
                },
                consumed_delimited(m1, e),
            )
        } else if c == '/' {
            let e = delim_end(s, p + 1, '/');
            (
                SpecToken {
                    kind: TokenType::Regex,
                    literal: s.subrange(p + 1, e),
                    line: m1.line,
                    col: m1.col,
                },
                consumed_delimited(m1, e),
            )
        } else if is_digit_char(c) || (c == '.' && p + 1 < s.len() && is_digit_char(s[p + 1])) {
            let e = number_end(s, p + 1);
            (
                SpecToken {
                    kind: TokenType::Number,
                    literal: s.subrange(p, e),
                    line: m1.line,
                    col: m1.col,
                },
                consumed_to(m1, e),
            )
        } else if crate::chars::is_alphabetic_char(c) {
            let e = ident_end(s, p + 1);
            (
                SpecToken {
                    kind: spec_lookup(s.subrange(p, e)),
                    literal: s.subrange(p, e),
                    line: m1.line,
                    col: m1.col,
                },
                consumed_to(m1, e),
            )
        } else {
            (op_token(TokenType::Illegal, m1), consumed_to(m1, p + 1))
        }
    }
}

pub proof fn lemma_skip_ws(m: LexerModel)
    requires
        m.wf(),
    ensures
        ({
            let r = spec_skip_ws(m);
            &&& r.wf()
            &&& r.input == m.input
            &&& m.pos <= r.pos <= m.input.len()
            &&& (r.pos < m.input.len() ==> !is_space_char(m.input[r.pos]))
        }),
    decreases m.input.len() - m.pos,
{
    if 0 <= m.pos < m.input.len() && is_space_char(m.input[m.pos]) {
        if m.input[m.pos] == '\n' {
            lemma_skip_ws(LexerModel { input: m.input, pos: m.pos + 1, line: m.line + 1, col: 1 });
        } else {
            lemma_skip_ws(
                LexerModel { input: m.input, pos: m.pos + 1, line: m.line, col: m.col + 1 },
            );
        }
    }
}

pub proof fn lemma_delim_end_bounds(s: Seq<char>, i: int, end: char)
    requires
        0 <= i <= s.len(),
    ensures
        i <= delim_end(s, i, end) <= s.len(),
    decreases s.len() - i,
{
    if i < s.len() && !(s[i] == end || s[i] == '\n' || s[i] == '\r') {
        lemma_delim_end_bounds(s, i + 1, end);
    }
}

pub proof fn lemma_comment_end_bounds(s: Seq<char>, i: int)
    requires
        0 <= i <= s.len(),
    ensures
        i <= comment_end(s, i) <= s.len(),
    decreases s.len() - i,
{
    if i < s.len() && !(s[i] == '\n' || s[i] == '\r') {
        lemma_comment_end_bounds(s, i + 1);
    }
}

pub proof fn lemma_number_end_bounds(s: Seq<char>, i: int)
    requires
        0 <= i <= s.len(),
    ensures
        i <= number_end(s, i) <= s.len(),
    decreases s.len() - i,
{
    if i < s.len() && spec_number_char(s[i]) {
        lemma_number_end_bounds(s, i + 1);
    }
}

pub proof fn lemma_ident_end_bounds(s: Seq<char>, i: int)
    requires
        0 <= i <= s.len(),
    ensures
        i <= ident_end(s, i) <= s.len(),
    decreases s.len() - i,
{
    if i < s.len() && spec_ident_char(s[i]) {
        lemma_ident_end_bounds(s, i + 1);
    }
}

pub proof fn lemma_delim_end_chars(s: Seq<char>, i: int, end: char)
    requires
        0 <= i <= s.len(),
    ensures
        forall|x: int|
            i <= x < delim_end(s, i, end) ==> !(s[x] == end || s[x] == '\n' || s[x] == '\r'),
        delim_end(s, i, end) < s.len() ==> (s[delim_end(s, i, end)] == end || s[delim_end(
            s,
            i,
            end,
        )] == '\n' || s[delim_end(s, i, end)] == '\r'),
    decreases s.len() - i,
{
    if i < s.len() && !(s[i] == end || s[i] == '\n' || s[i] == '\r') {
        lemma_delim_end_chars(s, i + 1, end);
    }
}

pub proof fn lemma_number_end_chars(s: Seq<char>, i: int)
    requires
        0 <= i <= s.len(),
    ensures
        forall|x: int| i <= x < number_end(s, i) ==> spec_number_char(s[x]),
        number_end(s, i) < s.len() ==> !spec_number_char(s[number_end(s, i)]),
    decreases s.len() - i,
{
    if i < s.len() && spec_number_char(s[i]) {
        lemma_number_end_chars(s, i + 1);
    }
}

pub proof fn lemma_ident_end_chars(s: Seq<char>, i: int)
    requires
        0 <= i <= s.len(),
    ensures
        forall|x: int| i <= x < ident_end(s, i) ==> spec_ident_char(s[x]),
        ident_end(s, i) < s.len() ==> !spec_ident_char(s[ident_end(s, i)]),
    decreases s.len() - i,
{
    if i < s.len() && spec_ident_char(s[i]) {
        lemma_ident_end_chars(s, i + 1);
    }
}

/// Scanning from the start of a text whose characters all continue a
/// number runs to its end.
pub proof fn lemma_number_end_full(s: Seq<char>, i: int)
    requires
        0 <= i <= s.len(),
        forall|x: int| i <= x < s.len() ==> spec_number_char(s[x]),
    ensures
        number_end(s, i) == s.len(),
    decreases s.len() - i,
{
    if i < s.len() {
        lemma_number_end_full(s, i + 1);
    }
}

/// Scanning from the start of a text whose characters all continue an
/// identifier runs to its end.
pub proof fn lemma_ident_end_full(s: Seq<char>, i: int)
    requires
        0 <= i <= s.len(),
        forall|x: int| i <= x < s.len() ==> spec_ident_char(s[x]),
    ensures
        ident_end(s, i) == s.len(),
    decreases s.len() - i,
{
    if i < s.len() {
        lemma_ident_end_full(s, i + 1);
    }
}

/// Scanning a delimited literal whose inner characters hold no
/// terminator stops exactly at the closing delimiter.
pub proof fn lemma_delim_end_full(s: Seq<char>, i: int, e: int, end: char)
    requires
        0 <= i <= e <= s.len(),
        forall|x: int| i <= x < e ==> !(s[x] == end || s[x] == '\n' || s[x] == '\r'),
        e == s.len() || s[e] == end || s[e] == '\n' || s[e] == '\r',
    ensures
        delim_end(s, i, end) == e,
    decreases e - i,
{
    if i < e {
        lemma_delim_end_full(s, i + 1, e, end);
    }
}

/// Each scanned token makes progress: the state stays well formed, the
/// position never moves backwards, and it strictly advances unless the
/// scanner reported the end of the input, in which case the state is
/// stable from then on.
pub proof fn lemma_next_token_progress(m: LexerModel)
    requires
        m.wf(),
    ensures
        ({
            let (t, m2) = spec_next_token(m);
            &&& m2.wf()
            &&& m2.input == m.input
            &&& m.pos <= m2.pos
            &&& (t.kind != TokenType::Eof ==> m2.pos > m.pos)
            &&& (t.kind == TokenType::Eof ==> t == eof_token() && m2.pos == m.input.len()
                && spec_next_token(m2) == (t, m2))
        }),
{
    lemma_skip_ws(m);
    let m1 = spec_skip_ws(m);
    let s = m1.input;
    let p = m1.pos;
    if p < s.len() {
        lemma_comment_end_bounds(s, p + 1);
        lemma_delim_end_bounds(s, p + 1, '}');
        lemma_delim_end_bounds(s, p + 1, '`');
        lemma_delim_end_bounds(s, p + 1, '\'');
        lemma_delim_end_bounds(s, p + 1, '"');
        lemma_delim_end_bounds(s, p + 1, '/');
        lemma_number_end_bounds(s, p + 1);
        lemma_ident_end_bounds(s, p + 1);
    }
}

/// The tokens of the rest of the input, ending before the `Eof` token.
pub open spec fn spec_tokens(m: LexerModel) -> Seq<SpecToken>
    decreases m.input.len() - m.pos,
    via spec_tokens_dec
{
    if m.wf() {
        let (t, m2) = spec_next_token(m);
        if t.kind == TokenType::Eof {
            Seq::<SpecToken>::empty()
        } else {
            seq![t] + spec_tokens(m2)
        }
    } else {
        Seq::<SpecToken>::empty()
    }
}

#[via_fn]
proof fn spec_tokens_dec(m: LexerModel) {
    if m.wf() {
        lemma_next_token_progress(m);
    }
}

/// How one scanned token relates to the token stream: it is the head of
/// the stream, or the end-of-input token once the stream is exhausted.
pub proof fn lemma_spec_tokens_next(m: LexerModel)
    requires
        m.wf(),
    ensures
        ({
            let (t, m2) = spec_next_token(m);
            let ts = spec_tokens(m);
            &&& (ts.len() > 0 ==> t == ts[0] && spec_tokens(m2) == ts.drop_first())
            &&& (ts.len() == 0 ==> t == eof_token() && spec_tokens(m2) == ts)
        }),
{
    lemma_next_token_progress(m);
    let (t, m2) = spec_next_token(m);
    let ts = spec_tokens(m);
    if t.kind == TokenType::Eof {
        assert(ts.len() == 0);
    } else {
        assert(ts == seq![t] + spec_tokens(m2));
        assert(ts[0] == t);
        assert(spec_tokens(m2) =~= ts.drop_first());
    }
}

/// The lexer over one source string.
pub struct Lexer {
    input: Vec<char>,
    pos: usize,
    line: usize,
    col: usize,
}

impl View for Lexer {
    type V = LexerModel;

    closed spec fn view(&self) -> LexerModel {
        LexerModel {
            input: self.input@,
            pos: self.pos as int,
            line: self.line as int,
            col: self.col as int,
        }
    }
}

impl Lexer {
    /// Whether the scanner state is well formed.
    pub open spec fn wf(&self) -> bool {
        self@.wf()
    }

    /// Create a new lexer over the source input.
    pub fn new(input: &str) -> (r: Lexer)
        requires
            input@.len() < usize::MAX,
        ensures
            r@ == lex_init(input@),
            r.wf(),
    {
        Lexer { input: str_to_chars(input), pos: 0, line: 1, col: 1 }
    }

    /// Skip white space, counting lines.
    fn skip_whitespace(&mut self)
        requires
            old(self).wf(),
        ensures
            final(self).wf(),
            final(self)@ == spec_skip_ws(old(self)@),
    {
        proof {
            lemma_skip_ws(old(self)@);
        }
        loop
            invariant
                self.wf(),
                self@.input == old(self)@.input,
                old(self)@.pos <= self@.pos,
                spec_skip_ws(old(self)@) == spec_skip_ws(self@),
            ensures
                self.wf(),
                self@ == spec_skip_ws(old(self)@),
            decreases self@.input.len() - self@.pos,
        {
            if self.pos >= self.input.len() {
                break;
            }
            let c = self.input[self.pos];
            if !is_space(c) {
                break;
            }
            if c == '\n' {
                self.line = self.line + 1;
                self.col = 1;
            } else {
                self.col = self.col + 1;
            }
            self.pos = self.pos + 1;
        }
    }

    /// The end of a delimited literal starting after `from`.
    fn scan_delim_end(&self, from: usize, end: char) -> (j: usize)
        requires
            self.wf(),
            from <= self@.input.len(),
        ensures
            j == delim_end(self@.input, from as int, end),
            from <= j <= self@.input.len(),
    {
        proof {
            lemma_delim_end_bounds(self@.input, from as int, end);
        }
        let n = self.input.len();
        let mut j: usize = from;
        loop
            invariant
                from <= j <= n,
                n == self@.input.len(),
                delim_end(self@.input, from as int, end) == delim_end(self@.input, j as int, end),
            ensures
                j == delim_end(self@.input, from as int, end),
                from <= j <= n,
            decreases n - j,
        {
            if j >= n {
                break;
            }
            let c = self.input[j];
            if c == end || c == '\n' || c == '\r' {
                break;
            }
            j = j + 1;
        }
        j
    }

    /// The end of a comment starting after `from`.
    fn scan_comment_end(&self, from: usize) -> (j: usize)
        requires
            self.wf(),
            from <= self@.input.len(),
        ensures
            j == comment_end(self@.input, from as int),
            from <= j <= self@.input.len(),
    {
        proof {
            lemma_comment_end_bounds(self@.input, from as int);
        }
        let n = self.input.len();
        let mut j: usize = from;
        loop
            invariant
                from <= j <= n,
                n == self@.input.len(),
                comment_end(self@.input, from as int) == comment_end(self@.input, j as int),
            ensures
                j == comment_end(self@.input, from as int),
                from <= j <= n,
            decreases n - j,
        {
            if j >= n {
                break;
            }
            let c = self.input[j];
            if c == '\n' || c == '\r' {
                break;
            }
            j = j + 1;
        }
        j
    }

    /// The end of a number starting after `from`.
    fn scan_number_end(&self, from: usize) -> (j: usize)
        requires
            self.wf(),
            from <= self@.input.len(),
        ensures
            j == number_end(self@.input, from as int),
            from <= j <= self@.input.len(),
    {
        proof {
            lemma_number_end_bounds(self@.input, from as int);
        }
        let n = self.input.len();
        let mut j: usize = from;
        loop
            invariant
                from <= j <= n,
                n == self@.input.len(),
                number_end(self@.input, from as int) == number_end(self@.input, j as int),
            ensures
                j == number_end(self@.input, from as int),
                from <= j <= n,
            decreases n - j,
        {
            if j >= n {
                break;
            }
            let c = self.input[j];
            if !(is_digit(c) || c == '.') {
                break;
            }
            j = j + 1;
        }
        j
    }

    /// The end of an identifier starting after `from`.
    fn scan_ident_end(&self, from: usize) -> (j: usize)
        requires
            self.wf(),
            from <= self@.input.len(),
        ensures
            j == ident_end(self@.input, from as int),
            from <= j <= self@.input.len(),
    {
        proof {
            lemma_ident_end_bounds(self@.input, from as int);
        }
        let n = self.input.len();
        let mut j: usize = from;
        loop
            invariant
                from <= j <= n,
                n == self@.input.len(),
                ident_end(self@.input, from as int) == ident_end(self@.input, j as int),
            ensures
                j == ident_end(self@.input, from as int),
                from <= j <= n,
            decreases n - j,
        {
            if j >= n {
                break;
            }
            let c = self.input[j];
            if !(c.is_alphabetic() || c.is_numeric() || c == '.' || c == '-' || c == '_' || c == '/'
                || c == '%') {
                break;
            }
            j = j + 1;
        }
        j
    }

    /// A single-character token at the current position; consumes it.
    fn one_char_token(&mut self, kind: TokenType) -> (t: Token)
        requires
            old(self).wf(),
            old(self)@.pos < old(self)@.input.len(),
        ensures
            final(self).wf(),
            t@ == op_token(kind, old(self)@),
            final(self)@ == consumed_to(old(self)@, old(self)@.pos + 1),
    {
        let c = self.input[self.pos];
        let t = Token { token_type: kind, literal: char_string(c), line: self.line, column: self.col };
        self.pos = self.pos + 1;
        self.col = self.col + 1;
        t
    }

    /// Scan and return the next token.
    pub fn next_token(&mut self) -> (t: Token)
        requires
            old(self).wf(),
        ensures
            final(self).wf(),
            ({
                let (st, m2) = spec_next_token(old(self)@);
                t@ == st && final(self)@ == m2
            }),
    {
        proof {
            lemma_next_token_progress(old(self)@);
        }
        self.skip_whitespace();
        if self.pos >= self.input.len() {
            return Token {
                token_type: TokenType::Eof,
                literal: String::from_str("\u{0}"),
                line: 0,
                column: 0,
            };
        }
        let c = self.input[self.pos];
        if c == '@' {
            self.one_char_token(TokenType::At)
        } else if c == '=' {
            self.one_char_token(TokenType::Equal)
        } else if c == ']' {
            self.one_char_token(TokenType::RightBracket)
        } else if c == '[' {
            self.one_char_token(TokenType::LeftBracket)
        } else if c == '-' {
            self.one_char_token(TokenType::Minus)
        } else if c == '%' {
            self.one_char_token(TokenType::Percent)
        } else if c == '^' {
            self.one_char_token(TokenType::Caret)
        } else if c == '\\' {
            self.one_char_token(TokenType::Backslash)
        } else if c == '#' {
            let line = self.line;
            let col = self.col;
            let p = self.pos;
            let e = self.scan_comment_end(p + 1);
            let lit = chars_to_string(&vec_substring(&self.input, p + 1, e));
            self.col = self.col + (e - p);
            self.pos = e;
            Token { token_type: TokenType::Comment, literal: lit, line, column: col }
        } else if c == '+' {
            self.one_char_token(TokenType::Plus)
        } else if c == '{' {
            let line = self.line;
            let col = self.col;
            let inner = self.read_delimited('}');
            let mut lit = String::from_str("{");
            lit.append(inner.as_str());
            lit.append("}");
            Token { token_type: TokenType::Json, literal: lit, line, column: col }
        } else if c == '`' {
            let line = self.line;
            let col = self.col;
            let lit = self.read_delimited('`');
            Token { token_type: TokenType::String, literal: lit, line, column: col }
        } else if c == '\'' {
            let line = self.line;
            let col = self.col;
            let lit = self.read_delimited('\'');
            Token { token_type: TokenType::String, literal: lit, line, column: col }
        } else if c == '"' {
            let line = self.line;
            let col = self.col;
            let lit = self.read_delimited('"');
            Token { token_type: TokenType::String, literal: lit, line, column: col }
        } else if c == '/' {
            let line = self.line;
            let col = self.col;
            let lit = self.read_delimited('/');
            Token { token_type: TokenType::Regex, literal: lit, line, column: col }
        } else if is_digit(c) || (c == '.' && self.pos + 1 < self.input.len() && is_digit(
            self.input[self.pos + 1],
        )) {
            let line = self.line;
            let col = self.col;
            let p = self.pos;
            let e = self.scan_number_end(p + 1);
            let lit = chars_to_string(&vec_substring(&self.input, p, e));
            self.col = self.col + (e - p);
            self.pos = e;
            Token { token_type: TokenType::Number, literal: lit, line, column: col }
        } else if c.is_alphabetic() {
            let line = self.line;
            let col = self.col;
            let p = self.pos;
            let e = self.scan_ident_end(p + 1);
            let lit = chars_to_string(&vec_substring(&self.input, p, e));
            let kind = lookup_identifier(lit.as_str());
            self.col = self.col + (e - p);
            self.pos = e;
            Token { token_type: kind, literal: lit, line, column: col }
        } else {
            self.one_char_token(TokenType::Illegal)
        }
    }

    /// Read a delimited literal: the text between the current character
    /// and the closing delimiter, a line terminator, or the end of the
    /// input, whichever comes first; the delimiter that ended it is
    /// consumed when there is one.
    fn read_delimited(&mut self, end: char) -> (lit: String)
        requires
            old(self).wf(),
            old(self)@.pos < old(self)@.input.len(),
        ensures
            final(self).wf(),
            ({
                let e = delim_end(old(self)@.input, old(self)@.pos + 1, end);
                lit@ == old(self)@.input.subrange(old(self)@.pos + 1, e) && final(self)@
                    == consumed_delimited(old(self)@, e)
            }),
    {
        let p = self.pos;
        let e = self.scan_delim_end(p + 1, end);
        let lit = chars_to_string(&vec_substring(&self.input, p + 1, e));
        if e < self.input.len() {
            self.pos = e + 1;
            self.col = self.col + (e - p) + 1;
        } else {
            self.pos = e;
            self.col = self.col + (e - p);
        }
        lit
    }
}

} // verus!
