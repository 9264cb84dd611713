use vstd::prelude::*;

use crate::token::{Token, TokenV};
use vstd::string::StrSliceExecFns;
use vstd::string::StringExecFns;

verus! {

/// The character at index `i`, or the NUL sentinel once the index has run
/// past the end of the input.
pub open spec fn char_at(s: Seq<char>, i: int) -> char {
    if 0 <= i < s.len() {
        s[i]
    } else {
        '\0'
    }
}

/// ASCII whitespace: space, tab, line feed, form feed, carriage return.
pub open spec fn spec_is_ws(c: char) -> bool {
    c as u32 == 32 || c as u32 == 9 || c as u32 == 10 || c as u32 == 12 || c as u32 == 13
}

/// An ASCII decimal digit.
pub open spec fn spec_is_digit(c: char) -> bool {
    48 <= c as u32 <= 57
}

/// An ASCII letter.
pub open spec fn spec_is_letter(c: char) -> bool {
    (65 <= c as u32 <= 90) || (97 <= c as u32 <= 122)
}

/// The numeric value of a digit character.
pub open spec fn digit_of(c: char) -> int {
    c as u32 - 48
}

/// The first index at or after `i` holding a non-whitespace character (or
/// the input's length if only whitespace remains).
pub open spec fn skip_ws(s: Seq<char>, i: int) -> int
    decreases s.len() - i,
{
    if 0 <= i < s.len() && spec_is_ws(s[i]) {
        skip_ws(s, i + 1)
    } else {
        i
    }
}

/// The first index at or after `i` holding a non-digit character.
pub open spec fn scan_digits(s: Seq<char>, i: int) -> int
    decreases s.len() - i,
{
    if 0 <= i < s.len() && spec_is_digit(s[i]) {
        scan_digits(s, i + 1)
    } else {
        i
    }
}

/// The first index at or after `i` holding a non-letter character.
pub open spec fn scan_letters(s: Seq<char>, i: int) -> int
    decreases s.len() - i,
{
    if 0 <= i < s.len() && spec_is_letter(s[i]) {
        scan_letters(s, i + 1)
    } else {
        i
    }
}

/// The index of the closing double quote at or after `i`, or the input's
/// length when the literal is unterminated.
pub open spec fn scan_string_end(s: Seq<char>, i: int) -> int
    decreases s.len() - i,
{
    if 0 <= i < s.len() && s[i] != '"' {
        scan_string_end(s, i + 1)
    } else {
        i
    }
}

/// The value of the decimal digit run `s[i..j)`, most significant digit
/// first.
pub open spec fn digits_val(s: Seq<char>, i: int, j: int) -> int
    decreases j - i,
{
    if j <= i {
        0
    } else {
        digits_val(s, i, j - 1) * 10 + digit_of(s[j - 1])
    }
}

/// The token for a scanned word: one of the seven keywords, or an
/// identifier carrying the word itself.
pub open spec fn keyword_or_ident(w: Seq<char>) -> TokenV {
    if w == "let"@ {
        TokenV::Let
    } else if w == "fn"@ {
        TokenV::Function
    } else if w == "return"@ {
        TokenV::Return
    } else if w == "true"@ {
        TokenV::Bool(true)
    } else if w == "false"@ {
        TokenV::Bool(false)
    } else if w == "if"@ {
        TokenV::If
    } else if w == "else"@ {
        TokenV::Else
    } else {
        TokenV::Ident(w)
    }
}

/// The scanner itself, as a mathematical function: from the input and the
/// current position, the next token and the position after it.  Whitespace
/// is skipped first; `==`, `!=`, `<=` and `>=` take two characters; a digit
/// run becomes an integer literal (or `Illegal` if its value does not fit in
/// an `i64`); a letter run becomes a keyword or identifier; a double quote
/// opens a string literal that runs to the next double quote (or to the end
/// of the input); any other character, and the end of the input, yield
/// `Eof`.
pub open spec fn spec_next_token(s: Seq<char>, pos: int) -> (TokenV, int) {
    let p = skip_ws(s, pos);
    if p >= s.len() {
        (TokenV::Eof, s.len() as int)
    } else {
        let c = s[p];
        if c == '"' {
            let e = scan_string_end(s, p + 1);
            (TokenV::StrLit(s.subrange(p + 1, e)), if e + 1 <= s.len() { e + 1 } else { s.len() as int })
        } else if spec_is_digit(c) {
            let e = scan_digits(s, p);
            let v = digits_val(s, p, e);
            (if v <= i64::MAX { TokenV::Int(v as i64) } else { TokenV::Illegal }, e)
        } else if spec_is_letter(c) {
            let e = scan_letters(s, p);
            (keyword_or_ident(s.subrange(p, e)), e)
        } else if c == '=' {
            if char_at(s, p + 1) == '=' {
                (TokenV::Equal, p + 2)
            } else {
                (TokenV::Assign, p + 1)
            }
        } else if c == '!' {
            if char_at(s, p + 1) == '=' {
                (TokenV::NotEqual, p + 2)
            } else {
                (TokenV::Bang, p + 1)
            }
        } else if c == '<' {
            if char_at(s, p + 1) == '=' {
                (TokenV::LessThanEqual, p + 2)
            } else {
                (TokenV::LessThan, p + 1)
            }
        } else if c == '>' {
            if char_at(s, p + 1) == '=' {
                (TokenV::GreaterThanEqual, p + 2)
            } else {
                (TokenV::GreaterThan, p + 1)
            }
        } else if c == ';' {
            (TokenV::Semicolon, p + 1)
        } else if c == '(' {
            (TokenV::LParen, p + 1)
        } else if c == ')' {
            (TokenV::RParent, p + 1)
        } else if c == ',' {
            (TokenV::Comma, p + 1)
        } else if c == '+' {
            (TokenV::Plus, p + 1)
        } else if c == '-' {
            (TokenV::Dash, p + 1)
        } else if c == '/' {
            (TokenV::ForwardSlash, p + 1)
        } else if c == '*' {
            (TokenV::Asterisk, p + 1)
        } else if c == '{' {
            (TokenV::LBrace, p + 1)
        } else if c == '}' {
            (TokenV::RBrace, p + 1)
        } else if c == '[' {
            (TokenV::LBracket, p + 1)
        } else if c == ']' {
            (TokenV::RBracket, p + 1)
        } else if c == ':' {
            (TokenV::Colon, p + 1)
        } else {
            (TokenV::Eof, p + 1)
        }
    }
}

/// A pull-based scanner over the source text; `next_token` yields the
/// tokens of `spec_next_token`, one at a time.
#[derive(Debug)]
pub struct Lexer {
    input: String,
    len: usize,
    position: usize,
    ch: char,
}

impl View for Lexer {
    type V = Seq<char>;

    /// The model of the scanner is the sequence of input characters.
    closed spec fn view(&self) -> Seq<char> {
        self.input@
    }
}

impl Lexer {
    /// The internal consistency of the scanner state: the cached length is
    /// the character count, the cursor never runs past the end, and `ch`
    /// caches the character under the cursor.
    pub closed spec fn wf(&self) -> bool {
        &&& self.len == self.input@.len()
        &&& self.position <= self.len
        &&& self.ch == char_at(self.input@, self.position as int)
    }

    /// The scanner's current position in the input, in characters.
    pub closed spec fn pos(&self) -> int {
        self.position as int
    }

    /// Starts a scanner at the beginning of `input`.
    pub fn new(input: &str) -> (r: Lexer)
        ensures
            r.wf(),
            r@ == input@,
            r.pos() == 0,
    {
        let owned: String = input.to_owned();
        let len: usize = owned.as_str().unicode_len();
        let ch: char = if 0 < len {
            owned.as_str().get_char(0)
        } else {
            '\0'
        };
        Lexer { input: owned, len, position: 0, ch }
    }

    /// The cursor stays within the input.
    pub proof fn wf_bounds(&self)
        requires
            self.wf(),
        ensures
            0 <= self.pos() <= self@.len(),
    {
    }

    /// Hands back a copy of the full source text.
    pub fn get_input(&self) -> (r: String)
        ensures
            r@ == self@,
    {
        self.input.clone()
    }

    /// Moves the cursor one character forward, saturating at the end of the
    /// input.
    fn advance(&mut self)
        requires
            old(self).wf(),
        ensures
            final(self).wf(),
            final(self).input@ == old(self).input@,
            final(self).len == old(self).len,
            final(self).pos() == if old(self).pos() < old(self).len { old(self).pos() + 1 } else { old(self).pos() },
    {
        if self.position < self.len {
            self.position = self.position + 1;
        }
        self.ch = if self.position < self.len {
            self.input.as_str().get_char(self.position)
        } else {
            '\0'
        };
    }

    /// The character one past the cursor, or NUL at the end.
    fn peek(&self) -> (r: char)
        requires
            self.wf(),
        ensures
            r == char_at(self.input@, self.pos() + 1),
    {
        if self.position < self.len && self.position + 1 < self.len {
            self.input.as_str().get_char(self.position + 1)
        } else {
            '\0'
        }
    }

    /// True for ASCII whitespace.
    fn is_ws_char(c: char) -> (r: bool)
        ensures
            r == spec_is_ws(c),
    {
        let u = c as u32;
        u == 32 || u == 9 || u == 10 || u == 12 || u == 13
    }

    /// True for an ASCII decimal digit.
    fn is_digit_char(c: char) -> (r: bool)
        ensures
            r == spec_is_digit(c),
    {
        let u = c as u32;
        48 <= u && u <= 57
    }

    /// True for an ASCII letter.
    fn is_letter_char(c: char) -> (r: bool)
        ensures
            r == spec_is_letter(c),
    {
        let u = c as u32;
        (65 <= u && u <= 90) || (97 <= u && u <= 122)
    }

    /// Skips whitespace under the cursor.
    fn eat_whitespace(&mut self)
        requires
            old(self).wf(),
        ensures
            final(self).wf(),
            final(self).input@ == old(self).input@,
            final(self).len == old(self).len,
            final(self).pos() == skip_ws(old(self).input@, old(self).pos()),
    {
        while self.position < self.len && (self.ch as u32 == 32 || self.ch as u32 == 9
            || self.ch as u32 == 10 || self.ch as u32 == 12 || self.ch as u32 == 13)
            invariant
                self.wf(),
                self.input@ == old(self).input@,
                self.len == old(self).len,
                skip_ws(self.input@, self.pos()) == skip_ws(self.input@, old(self).pos()),
            decreases self.len - self.position,
        {
            self.advance();
        }
    }

    /// Scans the digit run under the cursor and yields its value, or `None`
    /// when the value does not fit in an `i64`.
    fn read_int(&mut self) -> (r: Option<i64>)
        requires
            old(self).wf(),
            old(self).pos() < old(self).len,
            spec_is_digit(char_at(old(self).input@, old(self).pos())),
        ensures
            final(self).wf(),
            final(self).input@ == old(self).input@,
            final(self).len == old(self).len,
            final(self).pos() == scan_digits(old(self).input@, old(self).pos()),
            ({
                let v = digits_val(old(self).input@, old(self).pos(), final(self).pos());
                match r {
                    Some(n) => v == n,
                    None => v > i64::MAX,
                }
            }),
    {
        let ghost start = self.pos();
        let mut val: i64 = 0;
        let mut over: bool = false;
        while self.position < self.len && (48 <= self.ch as u32 && self.ch as u32 <= 57)
            invariant
                self.wf(),
                self.input@ == old(self).input@,
                self.len == old(self).len,
                start <= self.pos(),
                scan_digits(self.input@, self.pos()) == scan_digits(self.input@, start),
                forall|k: int| start <= k < self.pos() ==> spec_is_digit(char_at(self.input@, k)),
                0 <= val,
                !over ==> val == digits_val(self.input@, start, self.pos()),
                over ==> digits_val(self.input@, start, self.pos()) > i64::MAX,
            decreases self.len - self.position,
        {
            let d: i64 = (self.ch as u32 as i64) - 48;
            proof {
                assert(0 <= d <= 9);
            }
            if !over {
                if val > (i64::MAX - d) / 10 {
                    proof {
                        lemma_overflow_step(val as int, d as int);
                    }
                    over = true;
                } else {
                    proof {
                        lemma_no_overflow_step(val as int, d as int);
                    }
                    val = val * 10 + d;
                }
            } else {
                proof {
                    let cur = digits_val(self.input@, start, self.pos());
                    assert(cur * 10 + d >= cur) by (nonlinear_arith)
                        requires cur >= 0 && d >= 0;
                }
            }
            proof {
                lemma_digits_val_step(self.input@, start, self.pos());
            }
            self.advance();
        }
        if over {
            None
        } else {
            Some(val)
        }
    }

    /// Scans the letter run under the cursor and hands back the word.
    fn read_ident(&mut self) -> (r: String)
        requires
            old(self).wf(),
        ensures
            final(self).wf(),
            final(self).input@ == old(self).input@,
            final(self).len == old(self).len,
            final(self).pos() == scan_letters(old(self).input@, old(self).pos()),
            r@ == old(self).input@.subrange(old(self).pos(), final(self).pos()),
    {
        let start: usize = self.position;
        while self.position < self.len && ((65 <= self.ch as u32 && self.ch as u32 <= 90)
            || (97 <= self.ch as u32 && self.ch as u32 <= 122))
            invariant
                self.wf(),
                self.input@ == old(self).input@,
                self.len == old(self).len,
                start <= self.position,
                scan_letters(self.input@, self.pos()) == scan_letters(self.input@, start as int),
            decreases self.len - self.position,
        {
            self.advance();
        }
        self.input.as_str().substring_char(start, self.position).to_owned()
    }

    /// Scans a string literal: the cursor sits on the opening quote; the
    /// content runs to the next quote or to the end of the input, and the
    /// cursor ends one past the closing quote.
    fn read_string_lit(&mut self) -> (r: String)
        requires
            old(self).wf(),
            old(self).pos() < old(self).len,
        ensures
            final(self).wf(),
            final(self).input@ == old(self).input@,
            final(self).len == old(self).len,
            ({
                let e = scan_string_end(old(self).input@, old(self).pos() + 1);
                r@ == old(self).input@.subrange(old(self).pos() + 1, e) && final(self).pos() == e
            }),
    {
        self.advance();
        let start: usize = self.position;
        while self.position < self.len && self.ch != '"'
            invariant
                self.wf(),
                self.input@ == old(self).input@,
                self.len == old(self).len,
                start <= self.position,
                scan_string_end(self.input@, self.pos()) == scan_string_end(
                    self.input@,
                    start as int,
                ),
            decreases self.len - self.position,
        {
            self.advance();
        }
        self.input.as_str().substring_char(start, self.position).to_owned()
    }

    /// Produces the next token and moves past it; the token and the new
    /// position are exactly those of `spec_next_token` at the old position.
    pub fn next_token(&mut self) -> (t: Token)
        requires
            old(self).wf(),
        ensures
            final(self).wf(),
            final(self)@ == old(self)@,
            t@ == spec_next_token(old(self)@, old(self).pos()).0,
            final(self).pos() == spec_next_token(old(self)@, old(self).pos()).1,
    {
        self.eat_whitespace();
        if self.position >= self.len {
            self.advance();
            return Token::Eof;
        }
        let c = self.ch;
        if c == '"' {
            let s = self.read_string_lit();
            self.advance();
            return Token::String(s);
        }
        if Self::is_digit_char(c) {
            return match self.read_int() {
                Some(n) => Token::Int(n),
                None => Token::Illegal,
            };
        }
        if Self::is_letter_char(c) {
            let word = self.read_ident();
            let kw_let: String = "let".to_owned();
            let kw_fn: String = "fn".to_owned();
            let kw_return: String = "return".to_owned();
            let kw_true: String = "true".to_owned();
            let kw_false: String = "false".to_owned();
            let kw_if: String = "if".to_owned();
            let kw_else: String = "else".to_owned();
            return if word == kw_let {
                Token::Let
            } else if word == kw_fn {
                Token::Function
            } else if word == kw_return {
                Token::Return
            } else if word == kw_true {
                Token::Bool(true)
            } else if word == kw_false {
                Token::Bool(false)
            } else if word == kw_if {
                Token::If
            } else if word == kw_else {
                Token::Else
            } else {
                Token::Ident(word)
            };
        }
        let token = if c == '=' {
            if self.peek() == '=' {
                self.advance();
                Token::Equal
            } else {
                Token::Assign
            }
        } else if c == '!' {
            if self.peek() == '=' {
                self.advance();
                Token::NotEqual
            } else {
                Token::Bang
            }
        } else if c == '<' {
            if self.peek() == '=' {
                self.advance();
                Token::LessThanEqual
            } else {
                Token::LessThan
            }
        } else if c == '>' {
            if self.peek() == '=' {
                self.advance();
                Token::GreaterThanEqual
            } else {
                Token::GreaterThan
            }
        } else if c == ';' {
            Token::Semicolon
        } else if c == '(' {
            Token::LParen
        } else if c == ')' {
            Token::RParent
        } else if c == ',' {
            Token::Comma
        } else if c == '+' {
            Token::Plus
        } else if c == '-' {
            Token::Dash
        } else if c == '/' {
            Token::ForwardSlash
        } else if c == '*' {
            Token::Asterisk
        } else if c == '{' {
            Token::LBrace
        } else if c == '}' {
            Token::RBrace
        } else if c == '[' {
            Token::LBracket
        } else if c == ']' {
            Token::RBracket
        } else if c == ':' {
            Token::Colon
        } else {
            Token::Eof
        };
        self.advance();
        token
    }
}

/// Appending the digit at the end of the run multiplies the prefix value by
/// ten and adds that digit.
proof fn lemma_digits_val_step(s: Seq<char>, i: int, j: int)
    requires
        i <= j,
        0 <= j < s.len(),
    ensures
        digits_val(s, i, j + 1) == digits_val(s, i, j) * 10 + digit_of(char_at(s, j)),
{
    if 0 <= j < s.len() {
        assert(digits_val(s, i, j + 1) == digits_val(s, i, j) * 10 + digit_of(s[j]));
    }
}

/// When the accumulated value is too large for one more digit, the full run
/// no longer fits in an `i64`.
proof fn lemma_overflow_step(val: int, d: int)
    requires
        0 <= val,
        0 <= d <= 9,
        val > (i64::MAX - d) / 10,
    ensures
        val * 10 + d > i64::MAX,
{
    let m = i64::MAX - d;
    assert(val >= m / 10 + 1);
    assert((m / 10) * 10 + m % 10 == m) by (nonlinear_arith);
    assert(0 <= m % 10 < 10) by (nonlinear_arith)
        requires m >= 0;
    assert(val * 10 >= (m / 10 + 1) * 10) by (nonlinear_arith)
        requires val >= m / 10 + 1;
    assert((m / 10 + 1) * 10 == (m / 10) * 10 + 10) by (nonlinear_arith);
}

/// When the bound check passes, one more digit still fits in an `i64`.
proof fn lemma_no_overflow_step(val: int, d: int)
    requires
        0 <= val,
        0 <= d <= 9,
        val <= (i64::MAX - d) / 10,
    ensures
        0 <= val * 10 + d <= i64::MAX,
{
    let m = i64::MAX - d;
    assert((m / 10) * 10 + m % 10 == m) by (nonlinear_arith);
    assert(0 <= m % 10 < 10) by (nonlinear_arith)
        requires m >= 0;
    assert(val * 10 <= (m / 10) * 10) by (nonlinear_arith)
        requires val <= m / 10;
    assert(val * 10 >= 0) by (nonlinear_arith)
        requires val >= 0;
}

/// `skip_ws` never moves backwards nor past the end.
pub proof fn lemma_skip_ws_bounds(s: Seq<char>, i: int)
    requires
        0 <= i <= s.len(),
    ensures
        i <= skip_ws(s, i) <= s.len(),
    decreases s.len() - i,
{
    if i < s.len() && spec_is_ws(s[i]) {
        lemma_skip_ws_bounds(s, i + 1);
    }
}

/// `scan_digits` never moves backwards nor past the end.
pub proof fn lemma_scan_digits_bounds(s: Seq<char>, i: int)
    requires
        0 <= i <= s.len(),
    ensures
        i <= scan_digits(s, i) <= s.len(),
    decreases s.len() - i,
{
    if i < s.len() && spec_is_digit(s[i]) {
        lemma_scan_digits_bounds(s, i + 1);
    }
}

/// `scan_letters` never moves backwards nor past the end.
pub proof fn lemma_scan_letters_bounds(s: Seq<char>, i: int)
    requires
        0 <= i <= s.len(),
    ensures
        i <= scan_letters(s, i) <= s.len(),
    decreases s.len() - i,
{
    if i < s.len() && spec_is_letter(s[i]) {
        lemma_scan_letters_bounds(s, i + 1);
    }
}

/// `scan_string_end` never moves backwards nor past the end.
pub proof fn lemma_scan_string_end_bounds(s: Seq<char>, i: int)
    requires
        0 <= i <= s.len(),
    ensures
        i <= scan_string_end(s, i) <= s.len(),
    decreases s.len() - i,
{
    if i < s.len() && s[i] != '"' {
        lemma_scan_string_end_bounds(s, i + 1);
    }
}

/// Scanning stays within the input, and every token but the end-of-input
/// marker consumes at least one character.
pub proof fn lemma_next_token_bounds(s: Seq<char>, pos: int)
    requires
        0 <= pos <= s.len(),
    ensures
        pos <= spec_next_token(s, pos).1 <= s.len(),
        !(spec_next_token(s, pos).0 is Eof) ==> spec_next_token(s, pos).1 >= pos + 1,
{
    lemma_skip_ws_bounds(s, pos);
    let p = skip_ws(s, pos);
    if p < s.len() {
        let c = s[p];
        if c == '"' {
            lemma_scan_string_end_bounds(s, p + 1);
        } else if spec_is_digit(c) {
            lemma_scan_digits_bounds(s, p);
            assert(scan_digits(s, p) == scan_digits(s, p + 1)) by {
                assert(spec_is_digit(s[p]));
            }
            lemma_scan_digits_bounds(s, p + 1);
        } else if spec_is_letter(c) {
            lemma_scan_letters_bounds(s, p);
            assert(scan_letters(s, p) == scan_letters(s, p + 1));
            lemma_scan_letters_bounds(s, p + 1);
        }
    }
}

/// The whole token stream of the input from position `pos` on, ending
/// before the end-of-input marker.
pub open spec fn spec_tokenize(s: Seq<char>, pos: int) -> Seq<crate::token::TokenV>
    decreases s.len() - pos,
{
    let (t, p1) = spec_next_token(s, pos);
    if t is Eof {
        Seq::empty()
    } else {
        let p2 = if p1 <= pos {
            pos + 1
        } else if p1 > s.len() {
            s.len() as int
        } else {
            p1
        };
        if 0 <= pos < s.len() {
            seq![t] + spec_tokenize(s, p2)
        } else {
            Seq::empty()
        }
    }
}

} // verus!
