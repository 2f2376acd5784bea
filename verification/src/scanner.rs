//! The scanner: turns a buffer of source bytes into tokens on demand, one
//! call per token, tracking the 1-based line and column of every token. The
//! sequence is terminated by an end-of-input token that repeats if the
//! scanner is called again.

use vstd::prelude::*;

verus! {

/// The classification of a token.
#[derive(Clone, Copy, Debug, PartialEq, Eq, Structural)]
pub enum TokenType {
    Dup,
    Drop,
    EndOfFile,
    Error,
    False,
    Identifier,
    Int,
    Minus,
    Over,
    Plus,
    PrintLn,
    Rot,
    Slash,
    Star,
    Swap,
    True,
}

/// A classified, positioned fragment of source text. The lexeme is the byte
/// range `start .. start + length` of the buffer the scanner was built from;
/// `line` and `column` are 1-based and name the lexeme's first character.
#[derive(Clone, Copy, Debug, PartialEq, Eq, Structural)]
pub struct Token {
    pub token_type: TokenType,
    pub start: usize,
    pub length: usize,
    pub line: usize,
    pub column: usize,
}

/// A scanning position: a byte offset plus the 1-based line and column of
/// that offset.
pub ghost struct ScanPos {
    pub cur: int,
    pub line: int,
    pub col: int,
}

/// What one scanning step yields: the token's fields and the position the
/// scanner is left at.
pub ghost struct ScanResult {
    pub token_type: TokenType,
    pub start: int,
    pub length: int,
    pub line: int,
    pub column: int,
    pub end: ScanPos,
}

/// A byte skipped silently between tokens: space or carriage return.
pub open spec fn is_blank_byte(b: u8) -> bool {
    b == 32 || b == 13
}

/// The line feed byte, which ends a line.
pub open spec fn is_line_break(b: u8) -> bool {
    b == 10
}

/// An ASCII decimal digit.
pub open spec fn is_digit_byte(b: u8) -> bool {
    48 <= b && b <= 57
}

/// A byte that may start a word: a letter among the first 256 code points
/// (ASCII letters and the Latin-1 letters), since the source is read byte by
/// byte.
pub open spec fn is_word_start_byte(b: u8) -> bool {
    ||| (65 <= b && b <= 90)
    ||| (97 <= b && b <= 122)
    ||| b == 170
    ||| b == 181
    ||| b == 186
    ||| (192 <= b && b <= 214)
    ||| (216 <= b && b <= 246)
    ||| b >= 248
}

/// A byte that may continue a word: an ASCII letter, digit, or underscore.
pub open spec fn is_word_part_byte(b: u8) -> bool {
    ||| (65 <= b && b <= 90)
    ||| (97 <= b && b <= 122)
    ||| (48 <= b && b <= 57)
    ||| b == 95
}

/// The position reached after consuming every blank and line break in front
/// of `p`: column resets to 1 and the line count grows at each line break.
pub open spec fn spec_skip_whitespace(code: Seq<u8>, p: ScanPos) -> ScanPos
    decreases code.len() - p.cur,
{
    if p.cur < code.len() {
        if is_line_break(code[p.cur]) {
            spec_skip_whitespace(code, ScanPos { cur: p.cur + 1, line: p.line + 1, col: 1 })
        } else if is_blank_byte(code[p.cur]) {
            spec_skip_whitespace(code, ScanPos { cur: p.cur + 1, line: p.line, col: p.col + 1 })
        } else {
            p
        }
    } else {
        p
    }
}

/// The end of the maximal run of digits starting at `i`.
pub open spec fn spec_digits_end(code: Seq<u8>, i: int) -> int
    decreases code.len() - i,
{
    if i < code.len() && is_digit_byte(code[i]) {
        spec_digits_end(code, i + 1)
    } else {
        i
    }
}

/// The end of the maximal run of word bytes starting at `i`.
pub open spec fn spec_word_end(code: Seq<u8>, i: int) -> int
    decreases code.len() - i,
{
    if i < code.len() && is_word_part_byte(code[i]) {
        spec_word_end(code, i + 1)
    } else {
        i
    }
}

pub open spec fn kw_dup() -> Seq<u8> {
    seq![100u8, 117u8, 112u8]
}

pub open spec fn kw_drop() -> Seq<u8> {
    seq![100u8, 114u8, 111u8, 112u8]
}

pub open spec fn kw_false() -> Seq<u8> {
    seq![102u8, 97u8, 108u8, 115u8, 101u8]
}

pub open spec fn kw_over() -> Seq<u8> {
    seq![111u8, 118u8, 101u8, 114u8]
}

pub open spec fn kw_println() -> Seq<u8> {
    seq![112u8, 114u8, 105u8, 110u8, 116u8, 108u8, 110u8]
}

pub open spec fn kw_rot() -> Seq<u8> {
    seq![114u8, 111u8, 116u8]
}

pub open spec fn kw_swap() -> Seq<u8> {
    seq![115u8, 119u8, 97u8, 112u8]
}

pub open spec fn kw_true() -> Seq<u8> {
    seq![116u8, 114u8, 117u8, 101u8]
}

/// The token type of a scanned word: one of the eight keywords, or a generic
/// identifier for any other word.
pub open spec fn keyword_token_type(w: Seq<u8>) -> TokenType {
    if w == kw_dup() {
        TokenType::Dup
    } else if w == kw_drop() {
        TokenType::Drop
    } else if w == kw_false() {
        TokenType::False
    } else if w == kw_over() {
        TokenType::Over
    } else if w == kw_println() {
        TokenType::PrintLn
    } else if w == kw_rot() {
        TokenType::Rot
    } else if w == kw_swap() {
        TokenType::Swap
    } else if w == kw_true() {
        TokenType::True
    } else {
        TokenType::Identifier
    }
}

/// A single-character token at position `q`.
pub open spec fn single_char_result(tt: TokenType, q: ScanPos) -> ScanResult {
    ScanResult {
        token_type: tt,
        start: q.cur,
        length: 1,
        line: q.line,
        column: q.col,
        end: ScanPos { cur: q.cur + 1, line: q.line, col: q.col + 1 },
    }
}

/// What scanning one token from position `p` yields. Scanning is a pure
/// function of the buffer and the position: the same state always yields the
/// same token and leaves the scanner in the same state.
pub open spec fn spec_scan(code: Seq<u8>, p: ScanPos) -> ScanResult {
    let q = spec_skip_whitespace(code, p);
    if q.cur >= code.len() {
        ScanResult {
            token_type: TokenType::EndOfFile,
            start: q.cur,
            length: 0,
            line: q.line,
            column: q.col,
            end: q,
        }
    } else {
        let b = code[q.cur];
        if is_digit_byte(b) {
            let e = spec_digits_end(code, q.cur + 1);
            ScanResult {
                token_type: TokenType::Int,
                start: q.cur,
                length: e - q.cur,
                line: q.line,
                column: q.col,
                end: ScanPos { cur: e, line: q.line, col: q.col + (e - q.cur) },
            }
        } else if is_word_start_byte(b) {
            let e = spec_word_end(code, q.cur + 1);
            ScanResult {
                token_type: keyword_token_type(code.subrange(q.cur, e)),
                start: q.cur,
                length: e - q.cur,
                line: q.line,
                column: q.col,
                end: ScanPos { cur: e, line: q.line, col: q.col + (e - q.cur) },
            }
        } else if b == 43 {
            single_char_result(TokenType::Plus, q)
        } else if b == 45 {
            single_char_result(TokenType::Minus, q)
        } else if b == 42 {
            single_char_result(TokenType::Star, q)
        } else if b == 47 {
            single_char_result(TokenType::Slash, q)
        } else {
            single_char_result(TokenType::Error, q)
        }
    }
}

/// The token a scan result describes, fields narrowed to machine words.
pub open spec fn token_of(r: ScanResult) -> Token {
    Token {
        token_type: r.token_type,
        start: r.start as usize,
        length: r.length as usize,
        line: r.line as usize,
        column: r.column as usize,
    }
}

/// A position that lies inside the buffer, with line and column counts that
/// the position can account for.
pub open spec fn pos_wf(code: Seq<u8>, p: ScanPos) -> bool {
    &&& 0 <= p.cur <= code.len()
    &&& 1 <= p.line <= p.cur + 1
    &&& 1 <= p.col <= p.cur + 1
}

proof fn lemma_skip_whitespace_bounds(code: Seq<u8>, p: ScanPos)
    requires
        pos_wf(code, p),
    ensures
        pos_wf(code, spec_skip_whitespace(code, p)),
        p.cur <= spec_skip_whitespace(code, p).cur,
    decreases code.len() - p.cur,
{
    if p.cur < code.len() {
        if is_line_break(code[p.cur]) {
            lemma_skip_whitespace_bounds(
                code,
                ScanPos { cur: p.cur + 1, line: p.line + 1, col: 1 },
            );
        } else if is_blank_byte(code[p.cur]) {
            lemma_skip_whitespace_bounds(
                code,
                ScanPos { cur: p.cur + 1, line: p.line, col: p.col + 1 },
            );
        }
    }
}

proof fn lemma_digits_end_bounds(code: Seq<u8>, i: int)
    requires
        0 <= i <= code.len(),
    ensures
        i <= spec_digits_end(code, i) <= code.len(),
        forall|j: int|
            i <= j < spec_digits_end(code, i) ==> is_digit_byte(#[trigger] code[j]),
    decreases code.len() - i,
{
    if i < code.len() && is_digit_byte(code[i]) {
        lemma_digits_end_bounds(code, i + 1);
    }
}

proof fn lemma_word_end_bounds(code: Seq<u8>, i: int)
    requires
        0 <= i <= code.len(),
    ensures
        i <= spec_word_end(code, i) <= code.len(),
    decreases code.len() - i,
{
    if i < code.len() && is_word_part_byte(code[i]) {
        lemma_word_end_bounds(code, i + 1);
    }
}

/// Every field of a scan result stays within the buffer, the position the
/// scanner is left at is again well formed, every token but end-of-input
/// consumes at least one byte, and an integer token consists of digits.
pub proof fn lemma_scan_bounds(code: Seq<u8>, p: ScanPos)
    requires
        pos_wf(code, p),
    ensures
        ({
            let r = spec_scan(code, p);
            &&& pos_wf(code, r.end)
            &&& p.cur <= r.start
            &&& 0 <= r.start
            &&& 0 <= r.length
            &&& r.start + r.length <= code.len()
            &&& r.end.cur == r.start + r.length
            &&& 1 <= r.line <= r.start + 1
            &&& 1 <= r.column <= r.start + 1
            &&& (r.token_type != TokenType::EndOfFile ==> r.length >= 1)
            &&& (r.token_type == TokenType::EndOfFile ==> r.length == 0)
            &&& (r.token_type == TokenType::Int ==> forall|j: int|
                r.start <= j < r.start + r.length ==> is_digit_byte(#[trigger] code[j]))
        }),
{
    lemma_skip_whitespace_bounds(code, p);
    let q = spec_skip_whitespace(code, p);
    if q.cur < code.len() {
        let b = code[q.cur];
        if is_digit_byte(b) {
            lemma_digits_end_bounds(code, q.cur + 1);
        } else if is_word_start_byte(b) {
            lemma_word_end_bounds(code, q.cur + 1);
        }
    }
}

/// The scanner's abstract state: the buffer, the start offset of the token
/// being scanned, and the current position.
pub ghost struct ScannerView {
    pub code: Seq<u8>,
    pub start: int,
    pub pos: ScanPos,
}

/// The scanner: owns the source buffer and a position in it.
pub struct Scanner {
    code: Vec<u8>,
    start: usize,
    current: usize,
    line: usize,
    column: usize,
}

impl View for Scanner {
    type V = ScannerView;

    closed spec fn view(&self) -> ScannerView {
        ScannerView {
            code: self.code@,
            start: self.start as int,
            pos: ScanPos {
                cur: self.current as int,
                line: self.line as int,
                col: self.column as int,
            },
        }
    }
}

impl Scanner {
    /// The scanner's invariant: the position lies inside the buffer and the
    /// line and column counters are ones the consumed prefix can account for.
    pub open spec fn wf(&self) -> bool {
        &&& self@.code.len() < usize::MAX
        &&& pos_wf(self@.code, self@.pos)
    }

    pub fn new(code: Vec<u8>) -> (s: Self)
        requires
            code@.len() < usize::MAX,
        ensures
            s.wf(),
            s@.code == code@,
            s@.start == 0,
            s@.pos == (ScanPos { cur: 0, line: 1, col: 1 }),
    {
        Scanner { code, start: 0, current: 0, line: 1, column: 1 }
    }

    fn is_at_end(&self) -> (r: bool)
        ensures
            r == (self@.pos.cur >= self@.code.len()),
    {
        self.current >= self.code.len()
    }

    /// Consumes one byte: the offset and the column advance by one.
    fn advance(&mut self) -> (b: u8)
        requires
            old(self).wf(),
            old(self)@.pos.cur < old(self)@.code.len(),
        ensures
            final(self).wf(),
            final(self)@.code == old(self)@.code,
            final(self)@.start == old(self)@.start,
            final(self)@.pos.cur == old(self)@.pos.cur + 1,
            final(self)@.pos.line == old(self)@.pos.line,
            final(self)@.pos.col == old(self)@.pos.col + 1,
            b == old(self)@.code[old(self)@.pos.cur],
    {
        let b: u8 = self.code[self.current];
        self.current = self.current + 1;
        self.column = self.column + 1;
        b
    }

    fn skip_whitespace(&mut self)
        requires
            old(self).wf(),
        ensures
            final(self).wf(),
            final(self)@.code == old(self)@.code,
            final(self)@.start == old(self)@.start,
            final(self)@.pos == spec_skip_whitespace(old(self)@.code, old(self)@.pos),
    {
        loop
            invariant
                self.wf(),
                self@.code == old(self)@.code,
                self@.start == old(self)@.start,
                spec_skip_whitespace(self@.code, self@.pos) == spec_skip_whitespace(
                    old(self)@.code,
                    old(self)@.pos,
                ),
            ensures
                self.wf(),
                self@.code == old(self)@.code,
                self@.start == old(self)@.start,
                self@.pos == spec_skip_whitespace(old(self)@.code, old(self)@.pos),
            decreases self@.code.len() - self@.pos.cur,
        {
            if self.is_at_end() {
                break;
            }
            let b: u8 = self.code[self.current];
            if b == 10 {
                let _ = self.advance();
                self.line = self.line + 1;
                self.column = 1;
            } else if b == 32 || b == 13 {
                let _ = self.advance();
            } else {
                break;
            }
        }
    }

    /// Builds a token for the bytes consumed since `start`; the column names
    /// the first consumed character.
    fn make_token(&self, token_type: TokenType) -> (t: Token)
        requires
            0 <= self@.start <= self@.pos.cur <= self@.code.len(),
            self@.pos.col >= self@.pos.cur - self@.start + 1,
            self@.pos.line >= 1,
        ensures
            t.token_type == token_type,
            t.start == self@.start,
            t.length == self@.pos.cur - self@.start,
            t.line == self@.pos.line,
            t.column == self@.pos.col - (self@.pos.cur - self@.start),
    {
        let length: usize = self.current - self.start;
        Token {
            token_type,
            start: self.start,
            length,
            line: self.line,
            column: self.column - length,
        }
    }

    /// Builds the token for an unrecognized character, one byte long.
    fn error_token(&self) -> (t: Token)
        requires
            self@.pos.col >= 2,
            self@.pos.cur >= 1,
            self@.pos.line >= 1,
        ensures
            t.token_type == TokenType::Error,
            t.start == self@.start,
            t.length == 1,
            t.line == self@.pos.line,
            t.column == self@.pos.col - 1,
    {
        Token {
            token_type: TokenType::Error,
            start: self.start,
            length: 1,
            line: self.line,
            column: self.column - 1,
        }
    }

    /// Consumes the maximal run of digits and builds the integer token.
    fn make_number(&mut self) -> (t: Token)
        requires
            old(self).wf(),
            0 <= old(self)@.start <= old(self)@.pos.cur,
            old(self)@.pos.col >= old(self)@.pos.cur - old(self)@.start + 1,
        ensures
            final(self).wf(),
            final(self)@.code == old(self)@.code,
            final(self)@.start == old(self)@.start,
            ({
                let e = spec_digits_end(old(self)@.code, old(self)@.pos.cur);
                &&& final(self)@.pos == (ScanPos {
                    cur: e,
                    line: old(self)@.pos.line,
                    col: old(self)@.pos.col + (e - old(self)@.pos.cur),
                })
                &&& t.token_type == TokenType::Int
                &&& t.start == old(self)@.start
                &&& t.length == e - old(self)@.start
                &&& t.line == old(self)@.pos.line
                &&& t.column == old(self)@.pos.col - (old(self)@.pos.cur - old(self)@.start)
            }),
    {
        loop
            invariant
                self.wf(),
                self@.code == old(self)@.code,
                self@.start == old(self)@.start,
                old(self)@.pos.cur <= self@.pos.cur,
                self@.pos.line == old(self)@.pos.line,
                self@.pos.col == old(self)@.pos.col + (self@.pos.cur - old(self)@.pos.cur),
                spec_digits_end(self@.code, self@.pos.cur) == spec_digits_end(
                    old(self)@.code,
                    old(self)@.pos.cur,
                ),
            ensures
                self.wf(),
                self@.code == old(self)@.code,
                self@.start == old(self)@.start,
                self@.pos.line == old(self)@.pos.line,
                self@.pos.col == old(self)@.pos.col + (self@.pos.cur - old(self)@.pos.cur),
                self@.pos.cur == spec_digits_end(old(self)@.code, old(self)@.pos.cur),
            decreases self@.code.len() - self@.pos.cur,
        {
            if self.is_at_end() {
                break;
            }
            let b: u8 = self.code[self.current];
            if !(48 <= b && b <= 57) {
                break;
            }
            let _ = self.advance();
        }
        self.make_token(TokenType::Int)
    }

    /// Consumes the maximal run of word bytes and classifies the word as a
    /// keyword or a generic identifier.
    fn make_identifier(&mut self) -> (t: Token)
        requires
            old(self).wf(),
            0 <= old(self)@.start <= old(self)@.pos.cur,
            old(self)@.pos.col >= old(self)@.pos.cur - old(self)@.start + 1,
        ensures
            final(self).wf(),
            final(self)@.code == old(self)@.code,
            final(self)@.start == old(self)@.start,
            ({
                let e = spec_word_end(old(self)@.code, old(self)@.pos.cur);
                &&& final(self)@.pos == (ScanPos {
                    cur: e,
                    line: old(self)@.pos.line,
                    col: old(self)@.pos.col + (e - old(self)@.pos.cur),
                })
                &&& t.token_type == keyword_token_type(
                    old(self)@.code.subrange(old(self)@.start, e),
                )
                &&& t.start == old(self)@.start
                &&& t.length == e - old(self)@.start
                &&& t.line == old(self)@.pos.line
                &&& t.column == old(self)@.pos.col - (old(self)@.pos.cur - old(self)@.start)
            }),
    {
        loop
            invariant
                self.wf(),
                self@.code == old(self)@.code,
                self@.start == old(self)@.start,
                old(self)@.pos.cur <= self@.pos.cur,
                self@.pos.line == old(self)@.pos.line,
                self@.pos.col == old(self)@.pos.col + (self@.pos.cur - old(self)@.pos.cur),
                spec_word_end(self@.code, self@.pos.cur) == spec_word_end(
                    old(self)@.code,
                    old(self)@.pos.cur,
                ),
            ensures
                self.wf(),
                self@.code == old(self)@.code,
                self@.start == old(self)@.start,
                self@.pos.line == old(self)@.pos.line,
                self@.pos.col == old(self)@.pos.col + (self@.pos.cur - old(self)@.pos.cur),
                self@.pos.cur == spec_word_end(old(self)@.code, old(self)@.pos.cur),
            decreases self@.code.len() - self@.pos.cur,
        {
            if self.is_at_end() {
                break;
            }
            let b: u8 = self.code[self.current];
            if !((65 <= b && b <= 90) || (97 <= b && b <= 122) || (48 <= b && b <= 57) || b == 95)
            {
                break;
            }
            let _ = self.advance();
        }
        let tt: TokenType = self.keyword_type();
        self.make_token(tt)
    }

    /// Looks the word `start .. current` up in the fixed keyword table.
    fn keyword_type(&self) -> (tt: TokenType)
        requires
            0 <= self@.start <= self@.pos.cur <= self@.code.len(),
        ensures
            tt == keyword_token_type(self@.code.subrange(self@.start, self@.pos.cur)),
    {
        let ghost w = self@.code.subrange(self@.start, self@.pos.cur);
        let s: usize = self.start;
        let n: usize = self.current - self.start;
        if n == 3 && self.code[s] == 100 && self.code[s + 1] == 117 && self.code[s + 2] == 112 {
            proof {
                assert(w =~= kw_dup());
            }
            TokenType::Dup
        } else if n == 4 && self.code[s] == 100 && self.code[s + 1] == 114 && self.code[s + 2]
            == 111 && self.code[s + 3] == 112 {
            proof {
                assert(w =~= kw_drop());
            }
            TokenType::Drop
        } else if n == 5 && self.code[s] == 102 && self.code[s + 1] == 97 && self.code[s + 2]
            == 108 && self.code[s + 3] == 115 && self.code[s + 4] == 101 {
            proof {
                assert(w =~= kw_false());
            }
            TokenType::False
        } else if n == 4 && self.code[s] == 111 && self.code[s + 1] == 118 && self.code[s + 2]
            == 101 && self.code[s + 3] == 114 {
            proof {
                assert(w =~= kw_over());
            }
            TokenType::Over
        } else if n == 7 && self.code[s] == 112 && self.code[s + 1] == 114 && self.code[s + 2]
            == 105 && self.code[s + 3] == 110 && self.code[s + 4] == 116 && self.code[s + 5]
            == 108 && self.code[s + 6] == 110 {
            proof {
                assert(w =~= kw_println());
            }
            TokenType::PrintLn
        } else if n == 3 && self.code[s] == 114 && self.code[s + 1] == 111 && self.code[s + 2]
            == 116 {
            proof {
                assert(w =~= kw_rot());
            }
            TokenType::Rot
        } else if n == 4 && self.code[s] == 115 && self.code[s + 1] == 119 && self.code[s + 2]
            == 97 && self.code[s + 3] == 112 {
            proof {
                assert(w =~= kw_swap());
            }
            TokenType::Swap
        } else if n == 4 && self.code[s] == 116 && self.code[s + 1] == 114 && self.code[s + 2]
            == 117 && self.code[s + 3] == 101 {
            proof {
                assert(w =~= kw_true());
            }
            TokenType::True
        } else {
            proof {
                assert(w.len() == self@.pos.cur - self@.start);
                assert forall|j: int| 0 <= j < w.len() implies w[j] == self@.code[self@.start
                    + j] by {}
                assert(w != kw_dup());
                assert(w != kw_drop());
                assert(w != kw_false());
                assert(w != kw_over());
                assert(w != kw_println());
                assert(w != kw_rot());
                assert(w != kw_swap());
                assert(w != kw_true());
            }
            TokenType::Identifier
        }
    }

    /// Scans one token. Scanning is a pure function of the scanner's state:
    /// the token and the state left behind are exactly `spec_scan` of the
    /// state the call found.
    pub fn scan_token(&mut self) -> (t: Token)
        requires
            old(self).wf(),
        ensures
            final(self).wf(),
            final(self)@.code == old(self)@.code,
            ({
                let r = spec_scan(old(self)@.code, old(self)@.pos);
                &&& t.token_type == r.token_type
                &&& t.start == r.start
                &&& t.length == r.length
                &&& t.line == r.line
                &&& t.column == r.column
                &&& final(self)@.pos == r.end
                &&& final(self)@.start == r.start
            }),
    {
        proof {
            lemma_skip_whitespace_bounds(self@.code, self@.pos);
        }
        self.skip_whitespace();
        self.start = self.current;

        if self.is_at_end() {
            return self.make_token(TokenType::EndOfFile);
        }

        let b: u8 = self.advance();

        if 48 <= b && b <= 57 {
            return self.make_number();
        }

        if (65 <= b && b <= 90) || (97 <= b && b <= 122) || b == 170 || b == 181 || b == 186 || (
        192 <= b && b <= 214) || (216 <= b && b <= 246) || b >= 248 {
            return self.make_identifier();
        }

        match b {
            43 => self.make_token(TokenType::Plus),
            45 => self.make_token(TokenType::Minus),
            42 => self.make_token(TokenType::Star),
            47 => self.make_token(TokenType::Slash),
            _ => self.error_token(),
        }
    }

    /// Copies a token's lexeme out of the buffer.
    pub fn lexeme(&self, t: &Token) -> (b: Vec<u8>)
        requires
            t.start + t.length <= self@.code.len(),
        ensures
            b@ == self@.code.subrange(t.start as int, t.start + t.length),
    {
        let n: usize = self.code.len();
        let mut b: Vec<u8> = Vec::new();
        let mut i: usize = 0;
        while i < t.length
            invariant
                i <= t.length,
                t.start + t.length <= n,
                n == self@.code.len(),
                b@ == self@.code.subrange(t.start as int, t.start + i),
            decreases t.length - i,
        {
            b.push(self.code[t.start + i]);
            proof {
                assert(b@ =~= self@.code.subrange(t.start as int, t.start + i + 1));
            }
            i = i + 1;
        }
        proof {
            assert(b@ =~= self@.code.subrange(t.start as int, t.start + t.length));
        }
        b
    }
}

} // verus!
