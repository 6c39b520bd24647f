//! The scanner: lossless tokenization of a single source buffer.
//!
//! `next_token` returns the next token, or fails with
//! `IllegalCharacter` when the current character matches no token rule.
//! `Eof` is a valid, non-error terminal state and may be requested
//! again without error. The whole behaviour is pinned by the spec
//! functions below: `skip_at` (whitespace and `#`-to-end-of-line
//! comments), `token_at` / `token_end_at` (one token by maximal munch),
//! and `tokens_from` (the full token sequence of a buffer).

use vstd::prelude::*;

use crate::error::{Error, ErrorV};
use crate::pos::Pos;
use crate::token::{wf_token_seq, Token, TokenType, TokenV};

verus! {

// ------------------------------------------------------------------
// Character classes
// ------------------------------------------------------------------

/// A decimal digit.
pub open spec fn is_digit_char(c: char) -> bool {
    0x30 <= c as u32 && c as u32 <= 0x39
}

/// A character with the Unicode `White_Space` property.
pub open spec fn is_space_char(c: char) -> bool {
    let u = c as u32;
    ||| u == 0x20
    ||| (0x09 <= u && u <= 0x0d)
    ||| u == 0x85
    ||| u == 0xa0
    ||| u == 0x1680
    ||| (0x2000 <= u && u <= 0x200a)
    ||| u == 0x2028
    ||| u == 0x2029
    ||| u == 0x202f
    ||| u == 0x205f
    ||| u == 0x3000
}

/// A character that may start an identifier or keyword.
pub open spec fn is_id_start_char(c: char) -> bool {
    ||| (0x61 <= c as u32 && c as u32 <= 0x7a)  // 'a'..='z'
    ||| (0x41 <= c as u32 && c as u32 <= 0x5a)  // 'A'..='Z'
    ||| c == '_'
}

/// A character that may continue an identifier or keyword.
pub open spec fn is_id_continue_char(c: char) -> bool {
    is_id_start_char(c) || is_digit_char(c)
}

/// The kind of a single-character token, if `c` is one.
pub open spec fn punct_token_type(c: char) -> Option<TokenType> {
    if c == '+' {
        Some(TokenType::Plus)
    } else if c == '-' {
        Some(TokenType::Minus)
    } else if c == '*' {
        Some(TokenType::Star)
    } else if c == '/' {
        Some(TokenType::Slash)
    } else if c == '=' {
        Some(TokenType::Equal)
    } else if c == '(' {
        Some(TokenType::LParen)
    } else if c == ')' {
        Some(TokenType::RParen)
    } else if c == ':' {
        Some(TokenType::Colon)
    } else if c == ';' {
        Some(TokenType::Semicolon)
    } else if c == ',' {
        Some(TokenType::Comma)
    } else {
        None
    }
}

/// The kind of an identifier-shaped lexeme: the matching keyword, or
/// `Id` when it matches none.
pub open spec fn keyword_token_type(lexeme: Seq<char>) -> TokenType {
    if lexeme == "if"@ {
        TokenType::If
    } else if lexeme == "then"@ {
        TokenType::Then
    } else if lexeme == "else"@ {
        TokenType::Else
    } else if lexeme == "end"@ {
        TokenType::EndIf
    } else if lexeme == "while"@ {
        TokenType::While
    } else if lexeme == "do"@ {
        TokenType::Do
    } else if lexeme == "done"@ {
        TokenType::Done
    } else if lexeme == "read"@ {
        TokenType::Read
    } else if lexeme == "print"@ {
        TokenType::Print
    } else if lexeme == "var"@ {
        TokenType::Var
    } else if lexeme == "int"@ {
        TokenType::TypeInt
    } else if lexeme == "float"@ {
        TokenType::TypeFloat
    } else if lexeme == "string"@ {
        TokenType::TypeString
    } else {
        TokenType::Id
    }
}

// ------------------------------------------------------------------
// Positions
// ------------------------------------------------------------------

/// The 1-based line of the character at index `i`: one more than the
/// number of newlines before it.
pub open spec fn line_at(data: Seq<char>, i: int) -> int
    decreases i,
{
    if i <= 0 {
        1
    } else {
        line_at(data, i - 1) + if data[i - 1] == '\n' {
            1int
        } else {
            0int
        }
    }
}

/// The 1-based column of the character at index `i`: advancing over a
/// newline resets the column to 1; any other character increments it.
pub open spec fn col_at(data: Seq<char>, i: int) -> int
    decreases i,
{
    if i <= 0 {
        1
    } else if data[i - 1] == '\n' {
        1
    } else {
        col_at(data, i - 1) + 1
    }
}

/// The position of the character at index `i`.
pub open spec fn pos_at(data: Seq<char>, i: int) -> Pos {
    Pos { line: line_at(data, i) as usize, col: col_at(data, i) as usize }
}

/// Lines and columns stay within `i + 1`, so the `usize` fields of
/// [`Pos`] never overflow on a buffer shorter than `usize::MAX`.
pub proof fn lemma_pos_bounds(data: Seq<char>, i: int)
    requires
        0 <= i,
    ensures
        1 <= line_at(data, i) <= i + 1,
        1 <= col_at(data, i) <= i + 1,
    decreases i,
{
    if i > 0 {
        lemma_pos_bounds(data, i - 1);
    }
}

// ------------------------------------------------------------------
// Skipping whitespace and comments
// ------------------------------------------------------------------

/// The index of the first character of the next token candidate, at or
/// after `i`: white space is skipped, and a `#` starts a comment that
/// runs to the end of the line (or of the buffer).
pub open spec fn skip_at(data: Seq<char>, i: int, in_comment: bool) -> int
    decreases data.len() - i,
{
    if !(0 <= i < data.len()) {
        i
    } else if in_comment {
        if data[i] == '\n' {
            skip_at(data, i + 1, false)
        } else {
            skip_at(data, i + 1, true)
        }
    } else if is_space_char(data[i]) {
        skip_at(data, i + 1, false)
    } else if data[i] == '#' {
        skip_at(data, i + 1, true)
    } else {
        i
    }
}

/// Skipping moves forward and never past the end of the buffer.
pub proof fn lemma_skip_bounds(data: Seq<char>, i: int, in_comment: bool)
    requires
        0 <= i <= data.len(),
    ensures
        i <= skip_at(data, i, in_comment) <= data.len(),
    decreases data.len() - i,
{
    if i < data.len() {
        lemma_skip_bounds(data, i + 1, true);
        lemma_skip_bounds(data, i + 1, false);
    }
}

// ------------------------------------------------------------------
// Single tokens, by maximal munch
// ------------------------------------------------------------------

/// The end of the maximal run of digits starting at `i`.
pub open spec fn digits_end(data: Seq<char>, i: int) -> int
    decreases data.len() - i,
{
    if 0 <= i < data.len() && is_digit_char(data[i]) {
        digits_end(data, i + 1)
    } else {
        i
    }
}

pub proof fn lemma_digits_end_bounds(data: Seq<char>, i: int)
    requires
        0 <= i <= data.len(),
    ensures
        i <= digits_end(data, i) <= data.len(),
        i < data.len() && is_digit_char(data[i]) ==> i + 1 <= digits_end(data, i),
    decreases data.len() - i,
{
    if i < data.len() && is_digit_char(data[i]) {
        lemma_digits_end_bounds(data, i + 1);
    }
}

/// The end of the maximal run of identifier characters starting at `i`.
pub open spec fn id_end(data: Seq<char>, i: int) -> int
    decreases data.len() - i,
{
    if 0 <= i < data.len() && is_id_continue_char(data[i]) {
        id_end(data, i + 1)
    } else {
        i
    }
}

pub proof fn lemma_id_end_bounds(data: Seq<char>, i: int)
    requires
        0 <= i <= data.len(),
    ensures
        i <= id_end(data, i) <= data.len(),
        i < data.len() && is_id_continue_char(data[i]) ==> i + 1 <= id_end(data, i),
    decreases data.len() - i,
{
    if i < data.len() && is_id_continue_char(data[i]) {
        lemma_id_end_bounds(data, i + 1);
    }
}

/// Whether the character `c` can start a token.
pub open spec fn starts_token(c: char) -> bool {
    punct_token_type(c) is Some || is_digit_char(c) || is_id_start_char(c)
}

/// The index just past the token that starts at `j`
/// (`0 <= j < data.len()` and `starts_token(data[j])`).
pub open spec fn token_end_at(data: Seq<char>, j: int) -> int {
    let c = data[j];
    if punct_token_type(c) is Some {
        j + 1
    } else if is_digit_char(c) {
        let e1 = digits_end(data, j);
        if e1 < data.len() && data[e1] == '.' {
            digits_end(data, e1 + 1)
        } else {
            e1
        }
    } else {
        id_end(data, j)
    }
}

/// The token that starts at `j`
/// (`0 <= j < data.len()` and `starts_token(data[j])`).
///
/// A digit-initial run is an `Int`, unless the run is followed by `.`,
/// in which case the token continues with a (possibly empty) second
/// digit run and is a `Float`. A letter- or underscore-initial run is
/// classified by exact keyword match; any non-match is an `Id`.
pub open spec fn token_at(data: Seq<char>, j: int) -> TokenV {
    let c = data[j];
    let p = pos_at(data, j);
    match punct_token_type(c) {
        Some(t) => TokenV { typ: t, lexeme: None, pos: p },
        None => if is_digit_char(c) {
            let e1 = digits_end(data, j);
            if e1 < data.len() && data[e1] == '.' {
                let e2 = digits_end(data, e1 + 1);
                TokenV { typ: TokenType::Float, lexeme: Some(data.subrange(j, e2)), pos: p }
            } else {
                TokenV { typ: TokenType::Int, lexeme: Some(data.subrange(j, e1)), pos: p }
            }
        } else {
            let e = id_end(data, j);
            let lex = data.subrange(j, e);
            let t = keyword_token_type(lex);
            TokenV {
                typ: t,
                lexeme: if t == TokenType::Id {
                    Some(lex)
                } else {
                    None
                },
                pos: p,
            }
        },
    }
}

/// The `Eof` token of a buffer: at the position just past its last
/// character.
pub open spec fn eof_token_at(data: Seq<char>) -> TokenV {
    TokenV { typ: TokenType::Eof, lexeme: None, pos: pos_at(data, data.len() as int) }
}

// ------------------------------------------------------------------
// Whole-buffer tokenization
// ------------------------------------------------------------------

/// The token sequence of the buffer from index `i` on: the result of
/// pulling tokens until `Eof` or the first illegal character.
pub open spec fn tokens_from(data: Seq<char>, i: int) -> Result<Seq<TokenV>, ErrorV>
    decreases data.len() - i,
    via tokens_from_decreases
{
    if !(0 <= i <= data.len()) {
        Ok(Seq::empty())
    } else {
        let j = skip_at(data, i, false);
        if j == data.len() {
            Ok(seq![eof_token_at(data)])
        } else if starts_token(data[j]) {
            match tokens_from(data, token_end_at(data, j)) {
                Ok(rest) => Ok(seq![token_at(data, j)] + rest),
                Err(e) => Err(e),
            }
        } else {
            Err(ErrorV::IllegalCharacter(pos_at(data, j), data[j]))
        }
    }
}

#[via_fn]
proof fn tokens_from_decreases(data: Seq<char>, i: int) {
    if 0 <= i <= data.len() {
        lemma_skip_bounds(data, i, false);
        let j = skip_at(data, i, false);
        if j < data.len() && starts_token(data[j]) {
            lemma_token_end_bounds(data, j);
        }
    }
}

/// A token occupies at least one character and ends within the buffer.
pub proof fn lemma_token_end_bounds(data: Seq<char>, j: int)
    requires
        0 <= j < data.len(),
        starts_token(data[j]),
    ensures
        j + 1 <= token_end_at(data, j) <= data.len(),
{
    let c = data[j];
    if punct_token_type(c) is Some {
    } else if is_digit_char(c) {
        lemma_digits_end_bounds(data, j);
        let e1 = digits_end(data, j);
        if e1 < data.len() && data[e1] == '.' {
            lemma_digits_end_bounds(data, e1 + 1);
        }
    } else {
        lemma_id_end_bounds(data, j);
    }
}

// ------------------------------------------------------------------
// Executable character classes
// ------------------------------------------------------------------

/// Whether `c` is a decimal digit.
pub fn is_digit(c: char) -> (b: bool)
    ensures
        b == is_digit_char(c),
{
    let u = c as u32;
    0x30 <= u && u <= 0x39
}

/// Whether `c` has the Unicode `White_Space` property.
pub fn is_space(c: char) -> (b: bool)
    ensures
        b == is_space_char(c),
{
    let u = c as u32;
    u == 0x20 || (0x09 <= u && u <= 0x0d) || u == 0x85 || u == 0xa0 || u == 0x1680 || (0x2000 <= u
        && u <= 0x200a) || u == 0x2028 || u == 0x2029 || u == 0x202f || u == 0x205f || u == 0x3000
}

/// Whether `c` may start an identifier or keyword.
pub fn is_id_start(c: char) -> (b: bool)
    ensures
        b == is_id_start_char(c),
{
    let u = c as u32;
    (0x61 <= u && u <= 0x7a) || (0x41 <= u && u <= 0x5a) || c == '_'
}

/// Whether `c` may continue an identifier or keyword.
pub fn is_id_char(c: char) -> (b: bool)
    ensures
        b == is_id_continue_char(c),
{
    is_id_start(c) || is_digit(c)
}

/// Relies on `String::push`: appends one character at the end.
#[verifier::external_body]
pub(crate) fn push_char(s: &mut String, c: char)
    ensures
        final(s)@ == old(s)@.push(c),
{
    s.push(c);
}

/// The matching keyword kind of an identifier-shaped lexeme, or `Id`.
fn keyword_lookup(lexeme: &String) -> (t: TokenType)
    ensures
        t == keyword_token_type(lexeme@),
{
    if *lexeme == String::from_str("if") {
        TokenType::If
    } else if *lexeme == String::from_str("then") {
        TokenType::Then
    } else if *lexeme == String::from_str("else") {
        TokenType::Else
    } else if *lexeme == String::from_str("end") {
        TokenType::EndIf
    } else if *lexeme == String::from_str("while") {
        TokenType::While
    } else if *lexeme == String::from_str("do") {
        TokenType::Do
    } else if *lexeme == String::from_str("done") {
        TokenType::Done
    } else if *lexeme == String::from_str("read") {
        TokenType::Read
    } else if *lexeme == String::from_str("print") {
        TokenType::Print
    } else if *lexeme == String::from_str("var") {
        TokenType::Var
    } else if *lexeme == String::from_str("int") {
        TokenType::TypeInt
    } else if *lexeme == String::from_str("float") {
        TokenType::TypeFloat
    } else if *lexeme == String::from_str("string") {
        TokenType::TypeString
    } else {
        TokenType::Id
    }
}

// ------------------------------------------------------------------
// The scanner
// ------------------------------------------------------------------

/// The scanner's cursor state over a fixed character buffer.
pub struct Scanner {
    pub data: Vec<char>,
    pub index: usize,
    pub start_pos: Pos,
    pub curr_pos: Pos,
}

impl Scanner {
    /// Well-formedness: the cursor is inside the buffer (or just past
    /// it) and the tracked position agrees with the character count.
    pub open spec fn wf(&self) -> bool {
        &&& self.index <= self.data@.len()
        &&& self.data@.len() < usize::MAX
        &&& self.curr_pos == pos_at(self.data@, self.index as int)
    }

    /// Create a new scanner over a source buffer.
    #[verifier::loop_isolation(false)]
    pub fn new(data: &str) -> (s: Scanner)
        requires
            data@.len() < usize::MAX,
        ensures
            s.wf(),
            s.data@ == data@,
            s.index == 0,
    {
        let n = data.unicode_len();
        let mut v: Vec<char> = Vec::new();
        let mut i: usize = 0;
        while i < n
            invariant
                i <= n,
                n == data@.len(),
                v@ == data@.subrange(0, i as int),
            decreases n - i,
        {
            v.push(data.get_char(i));
            i = i + 1;
            proof {
                assert(v@ =~= data@.subrange(0, i as int));
            }
        }
        proof {
            assert(v@ =~= data@);
        }
        Scanner { data: v, index: 0, start_pos: Pos::start(), curr_pos: Pos::start() }
    }

    /// The character at the cursor.
    fn peek(&self) -> (c: char)
        requires
            self.index < self.data@.len(),
        ensures
            c == self.data@[self.index as int],
    {
        self.data[self.index]
    }

    /// The character at the cursor; moves the cursor one character
    /// forward, maintaining the position bookkeeping.
    fn advance(&mut self) -> (c: char)
        requires
            old(self).wf(),
            old(self).index < old(self).data@.len(),
        ensures
            final(self).wf(),
            final(self).data@ == old(self).data@,
            final(self).start_pos == old(self).start_pos,
            final(self).index == old(self).index + 1,
            c == old(self).data@[old(self).index as int],
    {
        proof {
            lemma_pos_bounds(self.data@, self.index as int);
            lemma_pos_bounds(self.data@, self.index as int + 1);
        }
        let c = self.data[self.index];
        if c == '\n' {
            self.curr_pos.line = self.curr_pos.line + 1;
            self.curr_pos.col = 1;
        } else {
            self.curr_pos.col = self.curr_pos.col + 1;
        }
        self.index = self.index + 1;
        c
    }

    /// Whether the end of the buffer has been reached.
    fn is_eof(&self) -> (b: bool)
        requires
            self.wf(),
        ensures
            b == (self.index == self.data@.len()),
    {
        self.index >= self.data.len()
    }

    /// Skip white space and `#`-to-end-of-line comments, looping: a
    /// comment may be followed by more white space and comments.
    fn skip_comments_and_whitespace(&mut self)
        requires
            old(self).wf(),
        ensures
            final(self).wf(),
            final(self).data@ == old(self).data@,
            final(self).start_pos == old(self).start_pos,
            old(self).index <= final(self).index,
            final(self).index == skip_at(old(self).data@, old(self).index as int, false),
    {
        let ghost data = self.data@;
        let ghost i0 = self.index as int;
        let mut in_comment = false;
        loop
            invariant
                self.wf(),
                self.data@ == data,
                self.start_pos == old(self).start_pos,
                i0 <= self.index <= data.len(),
                skip_at(data, self.index as int, in_comment) == skip_at(data, i0, false),
            ensures
                self.wf(),
                self.data@ == data,
                self.start_pos == old(self).start_pos,
                i0 <= self.index <= data.len(),
                self.index == skip_at(data, i0, false),
            decreases data.len() - self.index,
        {
            if self.index >= self.data.len() {
                break;
            }
            let c = self.peek();
            if in_comment {
                if c == '\n' {
                    in_comment = false;
                }
                let _ = self.advance();
            } else if is_space(c) {
                let _ = self.advance();
            } else if c == '#' {
                in_comment = true;
                let _ = self.advance();
            } else {
                break;
            }
        }
    }

    /// A token without a lexeme, at the recorded token start.
    fn empty_tok(&self, t: TokenType) -> (tok: Token)
        ensures
            tok@ == (TokenV { typ: t, lexeme: None, pos: self.start_pos }),
    {
        Token { typ: t, lexeme: None, pos: self.start_pos }
    }

    /// A token carrying a lexeme, at the recorded token start.
    fn lexeme_tok(&self, t: TokenType, lexeme: String) -> (tok: Token)
        ensures
            tok@ == (TokenV { typ: t, lexeme: Some(lexeme@), pos: self.start_pos }),
    {
        Token { typ: t, lexeme: Some(lexeme), pos: self.start_pos }
    }

    /// A single-character token: record it and consume its character.
    fn single_char_tok(&mut self, t: TokenType) -> (tok: Token)
        requires
            old(self).wf(),
            old(self).index < old(self).data@.len(),
        ensures
            final(self).wf(),
            final(self).data@ == old(self).data@,
            final(self).start_pos == old(self).start_pos,
            final(self).index == old(self).index + 1,
            tok@ == (TokenV { typ: t, lexeme: None, pos: old(self).start_pos }),
    {
        let tok = self.empty_tok(t);
        let _ = self.advance();
        tok
    }

    /// Scan a maximal digit run into an `Int` token, or, if the run is
    /// followed by `.`, continue with a second digit run and produce a
    /// `Float` token.
    #[verifier::loop_isolation(false)]
    fn scan_int_or_float(&mut self) -> (tok: Token)
        requires
            old(self).wf(),
            old(self).index < old(self).data@.len(),
            is_digit_char(old(self).data@[old(self).index as int]),
            old(self).start_pos == pos_at(old(self).data@, old(self).index as int),
        ensures
            final(self).wf(),
            final(self).data@ == old(self).data@,
            final(self).index == token_end_at(old(self).data@, old(self).index as int),
            tok@ == token_at(old(self).data@, old(self).index as int),
    {
        let ghost data = self.data@;
        let ghost j = self.index as int;
        let mut val = String::new();
        proof {
            assert(val@ =~= data.subrange(j, j));
        }
        while self.index < self.data.len() && is_digit(self.data[self.index])
            invariant
                self.wf(),
                self.data@ == data,
                self.start_pos == old(self).start_pos,
                j <= self.index <= data.len(),
                digits_end(data, self.index as int) == digits_end(data, j),
                val@ == data.subrange(j, self.index as int),
            decreases data.len() - self.index,
        {
            let ghost pre = self.index as int;
            let c = self.advance();
            push_char(&mut val, c);
            proof {
                assert(val@ =~= data.subrange(j, pre + 1));
            }
        }
        let ghost e1 = digits_end(data, j);
        assert(self.index as int == e1);
        if self.index < self.data.len() && self.data[self.index] == '.' {
            let ghost pre = self.index as int;
            let c = self.advance();
            push_char(&mut val, c);
            proof {
                assert(val@ =~= data.subrange(j, pre + 1));
            }
            while self.index < self.data.len() && is_digit(self.data[self.index])
                invariant
                    self.wf(),
                    self.data@ == data,
                    self.start_pos == old(self).start_pos,
                    e1 + 1 <= self.index <= data.len(),
                    digits_end(data, self.index as int) == digits_end(data, e1 + 1),
                    val@ == data.subrange(j, self.index as int),
                decreases data.len() - self.index,
            {
                let ghost pre = self.index as int;
                let c = self.advance();
                push_char(&mut val, c);
                proof {
                    assert(val@ =~= data.subrange(j, pre + 1));
                }
            }
            self.lexeme_tok(TokenType::Float, val)
        } else {
            self.lexeme_tok(TokenType::Int, val)
        }
    }

    /// Scan a maximal identifier-character run, then classify it by
    /// exact keyword match; a non-match is an `Id` carrying the run.
    #[verifier::loop_isolation(false)]
    fn scan_id_or_keyword(&mut self) -> (tok: Token)
        requires
            old(self).wf(),
            old(self).index < old(self).data@.len(),
            is_id_start_char(old(self).data@[old(self).index as int]),
            old(self).start_pos == pos_at(old(self).data@, old(self).index as int),
        ensures
            final(self).wf(),
            final(self).data@ == old(self).data@,
            final(self).index == token_end_at(old(self).data@, old(self).index as int),
            tok@ == token_at(old(self).data@, old(self).index as int),
    {
        let ghost data = self.data@;
        let ghost j = self.index as int;
        let mut lexeme = String::new();
        proof {
            assert(lexeme@ =~= data.subrange(j, j));
        }
        while self.index < self.data.len() && is_id_char(self.data[self.index])
            invariant
                self.wf(),
                self.data@ == data,
                self.start_pos == old(self).start_pos,
                j <= self.index <= data.len(),
                id_end(data, self.index as int) == id_end(data, j),
                lexeme@ == data.subrange(j, self.index as int),
            decreases data.len() - self.index,
        {
            let ghost pre = self.index as int;
            let c = self.advance();
            push_char(&mut lexeme, c);
            proof {
                assert(lexeme@ =~= data.subrange(j, pre + 1));
            }
        }
        let token_type = keyword_lookup(&lexeme);
        if token_type == TokenType::Id {
            self.lexeme_tok(token_type, lexeme)
        } else {
            self.empty_tok(token_type)
        }
    }

    /// Return the next token of the buffer, or fail with
    /// `IllegalCharacter` at the first character that matches no token
    /// rule. At the end of the buffer, return `Eof`; requesting again
    /// returns `Eof` again.
    pub fn next_token(&mut self) -> (r: Result<Token, Error>)
        requires
            old(self).wf(),
        ensures
            final(self).wf(),
            final(self).data@ == old(self).data@,
            old(self).index <= final(self).index,
            ({
                let data = old(self).data@;
                let j = skip_at(data, old(self).index as int, false);
                match r {
                    Ok(t) => {
                        if j == data.len() {
                            &&& t@ == eof_token_at(data)
                            &&& final(self).index == data.len()
                        } else {
                            &&& starts_token(data[j])
                            &&& t@ == token_at(data, j)
                            &&& final(self).index == token_end_at(data, j)
                        }
                    },
                    Err(e) => {
                        &&& j < data.len()
                        &&& !starts_token(data[j])
                        &&& e@ == ErrorV::IllegalCharacter(pos_at(data, j), data[j])
                        &&& final(self).index == j
                    },
                }
            }),
    {
        let ghost data = self.data@;
        proof {
            lemma_skip_bounds(data, self.index as int, false);
        }
        self.skip_comments_and_whitespace();
        self.start_pos = self.curr_pos;
        if self.is_eof() {
            return Ok(self.empty_tok(TokenType::Eof));
        }
        let c = self.peek();
        proof {
            if starts_token(c) {
                lemma_token_end_bounds(data, self.index as int);
            }
        }
        if c == '+' {
            Ok(self.single_char_tok(TokenType::Plus))
        } else if c == '-' {
            Ok(self.single_char_tok(TokenType::Minus))
        } else if c == '*' {
            Ok(self.single_char_tok(TokenType::Star))
        } else if c == '/' {
            Ok(self.single_char_tok(TokenType::Slash))
        } else if c == '=' {
            Ok(self.single_char_tok(TokenType::Equal))
        } else if c == '(' {
            Ok(self.single_char_tok(TokenType::LParen))
        } else if c == ')' {
            Ok(self.single_char_tok(TokenType::RParen))
        } else if c == ':' {
            Ok(self.single_char_tok(TokenType::Colon))
        } else if c == ';' {
            Ok(self.single_char_tok(TokenType::Semicolon))
        } else if c == ',' {
            Ok(self.single_char_tok(TokenType::Comma))
        } else if is_digit(c) {
            Ok(self.scan_int_or_float())
        } else if is_id_start(c) {
            Ok(self.scan_id_or_keyword())
        } else {
            Err(Error::IllegalCharacter(self.curr_pos, c))
        }
    }
}

/// `token_at` never produces an `Eof` token.
pub proof fn lemma_token_at_not_eof(data: Seq<char>, j: int)
    requires
        0 <= j < data.len(),
        starts_token(data[j]),
    ensures
        token_at(data, j).typ != TokenType::Eof,
{
}

/// Prefix a token sequence onto the result of scanning a suffix.
pub open spec fn prepend_tokens(pre: Seq<TokenV>, r: Result<Seq<TokenV>, ErrorV>) -> Result<
    Seq<TokenV>,
    ErrorV,
> {
    match r {
        Ok(ts) => Ok(pre + ts),
        Err(e) => Err(e),
    }
}

/// Scan a whole source buffer: pull tokens until `Eof` or the first
/// error. On success the result ends with exactly one `Eof`, as the
/// last token.
#[verifier::loop_isolation(false)]
pub fn scan(data: &str) -> (r: Result<Vec<Token>, Error>)
    requires
        data@.len() < usize::MAX,
    ensures
        match tokens_from(data@, 0) {
            Ok(ts) => r matches Ok(v) && v.deep_view() == ts && wf_token_seq(v.deep_view()),
            Err(ev) => r matches Err(e) && e@ == ev,
        },
{
    let mut scanner = Scanner::new(data);
    let mut tokens: Vec<Token> = Vec::new();
    proof {
        assert(tokens.deep_view() + tokens_from(data@, 0)->Ok_0 =~= tokens_from(data@, 0)->Ok_0);
    }
    loop
        invariant
            scanner.wf(),
            scanner.data@ == data@,
            tokens_from(data@, 0) == prepend_tokens(
                tokens.deep_view(),
                tokens_from(data@, scanner.index as int),
            ),
        decreases data@.len() - scanner.index,
    {
        let ghost pre = scanner.index as int;
        let ghost acc = tokens.deep_view();
        proof {
            lemma_skip_bounds(data@, pre, false);
        }
        match scanner.next_token() {
            Ok(t) => {
                let ghost j = skip_at(data@, pre, false);
                let is_last = t.typ == TokenType::Eof;
                proof {
                    if j < data@.len() {
                        lemma_token_at_not_eof(data@, j);
                        lemma_token_end_bounds(data@, j);
                    }
                }
                tokens.push(t);
                proof {
                    assert(tokens.deep_view() =~= acc.push(t@));
                    if j < data@.len() {
                        let rest = tokens_from(data@, token_end_at(data@, j));
                        assert(tokens_from(data@, pre) == prepend_tokens(seq![t@], rest));
                        match rest {
                            Ok(ts) => {
                                assert(acc + (seq![t@] + ts) =~= acc.push(t@) + ts);
                            },
                            Err(_) => {},
                        }
                    } else {
                        assert(tokens_from(data@, pre) == Ok::<_, ErrorV>(seq![t@]));
                        assert(acc + seq![t@] =~= acc.push(t@));
                    }
                }
                if is_last {
                    proof {
                        lemma_tokens_from_wf(data@, 0);
                        assert(acc.push(t@) + Seq::<TokenV>::empty() =~= acc.push(t@));
                    }
                    return Ok(tokens);
                }
            },
            Err(e) => {
                return Err(e);
            },
        }
    }
}

// ------------------------------------------------------------------
// Laws of scanning
// ------------------------------------------------------------------

/// The number of single-character tokens in the buffer from `i` on.
pub open spec fn punct_count(data: Seq<char>, i: int) -> int
    decreases data.len() - i,
{
    if !(0 <= i < data.len()) {
        0
    } else {
        (if punct_token_type(data[i]) is Some {
            1int
        } else {
            0int
        }) + punct_count(data, i + 1)
    }
}

proof fn lemma_round_trip_token_count_from(data: Seq<char>, i: int)
    requires
        0 <= i <= data.len(),
        forall|k: int|
            0 <= k < data.len() ==> punct_token_type(#[trigger] data[k]) is Some || is_space_char(
                data[k],
            ),
    ensures
        tokens_from(data, i) is Ok,
        tokens_from(data, i)->Ok_0.len() == punct_count(data, i) + 1,
    decreases data.len() - i,
{
    if i == data.len() {
    } else if is_space_char(data[i]) {
        lemma_round_trip_token_count_from(data, i + 1);
        assert(skip_at(data, i, false) == skip_at(data, i + 1, false));
        assert(tokens_from(data, i) == tokens_from(data, i + 1));
        assert(punct_token_type(data[i]) is None);
    } else {
        assert(punct_token_type(data[i]) is Some);
        assert(skip_at(data, i, false) == i);
        assert(token_end_at(data, i) == i + 1);
        lemma_round_trip_token_count_from(data, i + 1);
    }
}

/// Round-trip token count: on an input consisting only of recognized
/// single-character tokens and white space, scanning succeeds and the
/// token sequence length equals the count of those characters plus one
/// (the `Eof`).
pub proof fn lemma_round_trip_token_count(data: Seq<char>)
    requires
        forall|k: int|
            0 <= k < data.len() ==> punct_token_type(#[trigger] data[k]) is Some || is_space_char(
                data[k],
            ),
    ensures
        tokens_from(data, 0) is Ok,
        tokens_from(data, 0)->Ok_0.len() == punct_count(data, 0) + 1,
{
    lemma_round_trip_token_count_from(data, 0);
}

/// Scanning never yields an interior `Eof`: every successful token
/// sequence is well formed.
pub proof fn lemma_tokens_from_wf(data: Seq<char>, i: int)
    requires
        0 <= i <= data.len(),
        tokens_from(data, i) is Ok,
    ensures
        wf_token_seq(tokens_from(data, i)->Ok_0),
    decreases data.len() - i,
{
    lemma_skip_bounds(data, i, false);
    let j = skip_at(data, i, false);
    if j == data.len() {
    } else if starts_token(data[j]) {
        lemma_token_end_bounds(data, j);
        lemma_tokens_from_wf(data, token_end_at(data, j));
        let t = token_at(data, j);
        assert(t.typ != TokenType::Eof);
        let rest = tokens_from(data, token_end_at(data, j))->Ok_0;
        let ts = tokens_from(data, i)->Ok_0;
        assert(ts.last() == rest.last());
        assert(forall|k: int| 0 <= k < ts.len() - 1 ==> (#[trigger] ts[k].typ) != TokenType::Eof);
    }
}

} // verus!
