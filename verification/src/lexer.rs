//! The lexical scanner.
//!
//! The grammar of lexemes is written down once, as specification functions
//! over the input character sequence (`skip_trivia`, `scan_digits`,
//! `next_token_spec`, `lex_from`), and the executable scanner is proved to
//! produce exactly what those functions describe: `tokenize` returns the
//! token sequence of `lex_from` on success and fails with the offset
//! `lex_from` fails with.

use vstd::prelude::*;

use crate::error::{ErrorKind, TokenizationError};
use crate::rat::Rat;
use crate::token::{copy_chars, keyword_or_ident, lookup_bareword, Token, TokenV};

verus! {

// ---------------------------------------------------------------------------
// Character classes
// ---------------------------------------------------------------------------

/// Whitespace characters: space, tab, newline, carriage return.
pub open spec fn is_ws_char(c: char) -> bool {
    c == ' ' || c == '\t' || c == '\n' || c == '\r'
}

/// ASCII decimal digits.
pub open spec fn is_digit_char(c: char) -> bool {
    '0' as u32 <= c as u32 && c as u32 <= '9' as u32
}

/// The numeric value of a digit character.
pub open spec fn digit_val(c: char) -> int {
    c as u32 - '0' as u32
}

/// ASCII letters.
pub open spec fn is_alpha_char(c: char) -> bool {
    ('a' as u32 <= c as u32 && c as u32 <= 'z' as u32) || ('A' as u32 <= c as u32 && c as u32
        <= 'Z' as u32)
}

/// Characters that may continue a bareword: letters, hyphen, underscore.
pub open spec fn is_ident_char(c: char) -> bool {
    is_alpha_char(c) || c == '-' || c == '_'
}

fn ws_char(c: char) -> (r: bool)
    ensures
        r == is_ws_char(c),
{
    c == ' ' || c == '\t' || c == '\n' || c == '\r'
}

fn digit_char(c: char) -> (r: bool)
    ensures
        r == is_digit_char(c),
{
    let u = c as u32;
    48 <= u && u <= 57
}

fn alpha_char(c: char) -> (r: bool)
    ensures
        r == is_alpha_char(c),
{
    let u = c as u32;
    (97 <= u && u <= 122) || (65 <= u && u <= 90)
}

fn ident_char(c: char) -> (r: bool)
    ensures
        r == is_ident_char(c),
{
    alpha_char(c) || c == '-' || c == '_'
}

// ---------------------------------------------------------------------------
// Trivia: whitespace, line comments, non-nesting block comments
// ---------------------------------------------------------------------------

/// Where the scanner stands while skipping trivia: plain text, inside a
/// line comment, or inside a block comment.
#[derive(Clone, Copy, Debug, PartialEq, Eq, Structural)]
pub enum TriviaMode {
    Normal,
    InLine,
    InBlock,
}

/// The position of the first character after all leading trivia, or `None`
/// when a block comment is left unterminated. A line comment is ended by a
/// newline or by the end of the input.
pub open spec fn skip_trivia(s: Seq<char>, i: int, mode: TriviaMode) -> Option<int>
    decreases s.len() - i,
{
    if i >= s.len() {
        match mode {
            TriviaMode::InBlock => None,
            _ => Some(s.len() as int),
        }
    } else {
        match mode {
            TriviaMode::Normal => {
                if is_ws_char(s[i]) {
                    skip_trivia(s, i + 1, TriviaMode::Normal)
                } else if s[i] == '/' && i + 1 < s.len() && s[i + 1] == '/' {
                    skip_trivia(s, i + 2, TriviaMode::InLine)
                } else if s[i] == '/' && i + 1 < s.len() && s[i + 1] == '*' {
                    skip_trivia(s, i + 2, TriviaMode::InBlock)
                } else {
                    Some(i)
                }
            },
            TriviaMode::InLine => {
                if s[i] == '\n' {
                    skip_trivia(s, i + 1, TriviaMode::Normal)
                } else {
                    skip_trivia(s, i + 1, TriviaMode::InLine)
                }
            },
            TriviaMode::InBlock => {
                if s[i] == '*' && i + 1 < s.len() && s[i + 1] == '/' {
                    skip_trivia(s, i + 2, TriviaMode::Normal)
                } else {
                    skip_trivia(s, i + 1, TriviaMode::InBlock)
                }
            },
        }
    }
}

/// Skipping trivia never moves backwards and stays inside the input.
pub proof fn lemma_skip_trivia_bounds(s: Seq<char>, i: int, mode: TriviaMode)
    requires
        0 <= i <= s.len(),
        skip_trivia(s, i, mode) is Some,
    ensures
        i <= skip_trivia(s, i, mode).unwrap() <= s.len(),
    decreases s.len() - i,
{
    if i >= s.len() {
    } else {
        match mode {
            TriviaMode::Normal => {
                if is_ws_char(s[i]) {
                    lemma_skip_trivia_bounds(s, i + 1, TriviaMode::Normal);
                } else if s[i] == '/' && i + 1 < s.len() && s[i + 1] == '/' {
                    lemma_skip_trivia_bounds(s, i + 2, TriviaMode::InLine);
                } else if s[i] == '/' && i + 1 < s.len() && s[i + 1] == '*' {
                    lemma_skip_trivia_bounds(s, i + 2, TriviaMode::InBlock);
                }
            },
            TriviaMode::InLine => {
                if s[i] == '\n' {
                    lemma_skip_trivia_bounds(s, i + 1, TriviaMode::Normal);
                } else {
                    lemma_skip_trivia_bounds(s, i + 1, TriviaMode::InLine);
                }
            },
            TriviaMode::InBlock => {
                if s[i] == '*' && i + 1 < s.len() && s[i + 1] == '/' {
                    lemma_skip_trivia_bounds(s, i + 2, TriviaMode::Normal);
                } else {
                    lemma_skip_trivia_bounds(s, i + 1, TriviaMode::InBlock);
                }
            },
        }
    }
}

/// The end of all leading trivia, or the error offset (the input length)
/// for an unterminated block comment.
fn trivia_end(input: &Vec<char>, start: usize) -> (r: Result<usize, usize>)
    requires
        start <= input.len(),
    ensures
        skip_trivia(input@, start as int, TriviaMode::Normal) matches Some(j) ==> (r matches Ok(v)
            && v as int == j && start <= v <= input.len()),
        skip_trivia(input@, start as int, TriviaMode::Normal) is None ==> (r matches Err(o) && o
            == input.len()),
{
    let mut pos = start;
    let mut mode = TriviaMode::Normal;
    loop
        invariant
            start <= pos <= input.len(),
            skip_trivia(input@, pos as int, mode) == skip_trivia(
                input@,
                start as int,
                TriviaMode::Normal,
            ),
        decreases input.len() - pos,
    {
        if pos >= input.len() {
            match mode {
                TriviaMode::InBlock => {
                    return Err(input.len());
                },
                _ => {
                    return Ok(pos);
                },
            }
        }
        let c = input[pos];
        match mode {
            TriviaMode::Normal => {
                if ws_char(c) {
                    pos += 1;
                } else if c == '/' && pos + 1 < input.len() && input[pos + 1] == '/' {
                    pos += 2;
                    mode = TriviaMode::InLine;
                } else if c == '/' && pos + 1 < input.len() && input[pos + 1] == '*' {
                    pos += 2;
                    mode = TriviaMode::InBlock;
                } else {
                    return Ok(pos);
                }
            },
            TriviaMode::InLine => {
                if c == '\n' {
                    mode = TriviaMode::Normal;
                }
                pos += 1;
            },
            TriviaMode::InBlock => {
                if c == '*' && pos + 1 < input.len() && input[pos + 1] == '/' {
                    pos += 2;
                    mode = TriviaMode::Normal;
                } else {
                    pos += 1;
                }
            },
        }
    }
}

// ---------------------------------------------------------------------------
// Scanning literals
// ---------------------------------------------------------------------------

/// The end of the maximal run of digits beginning at `i`.
pub open spec fn scan_digits(s: Seq<char>, i: int) -> int
    decreases s.len() - i,
{
    if 0 <= i < s.len() && is_digit_char(s[i]) {
        scan_digits(s, i + 1)
    } else {
        i
    }
}

/// The digit run stays inside the input and holds digits only.
pub proof fn lemma_scan_digits_bounds(s: Seq<char>, i: int)
    requires
        0 <= i <= s.len(),
    ensures
        i <= scan_digits(s, i) <= s.len(),
        forall|k: int| i <= k < scan_digits(s, i) ==> is_digit_char(#[trigger] s[k]),
    decreases s.len() - i,
{
    if 0 <= i < s.len() && is_digit_char(s[i]) {
        lemma_scan_digits_bounds(s, i + 1);
    }
}

/// The decimal value of the digit run `s[i..j)`.
pub open spec fn digits_value(s: Seq<char>, i: int, j: int) -> int
    decreases j - i,
{
    if i >= j {
        0
    } else {
        digits_value(s, i, j - 1) * 10 + digit_val(s[j - 1])
    }
}

/// Digit runs have non-negative values.
pub proof fn lemma_digits_value_nonneg(s: Seq<char>, i: int, j: int)
    requires
        forall|k: int| i <= k < j ==> is_digit_char(#[trigger] s[k]),
    ensures
        digits_value(s, i, j) >= 0,
    decreases j - i,
{
    if i < j {
        lemma_digits_value_nonneg(s, i, j - 1);
        assert(digits_value(s, i, j - 1) * 10 >= 0) by (nonlinear_arith)
            requires
                digits_value(s, i, j - 1) >= 0,
        ;
    }
}

/// Extending a digit run to the right never shrinks its value.
pub proof fn lemma_digits_value_mono(s: Seq<char>, i: int, j: int, j2: int)
    requires
        i <= j <= j2,
        forall|k: int| i <= k < j2 ==> is_digit_char(#[trigger] s[k]),
    ensures
        digits_value(s, i, j) <= digits_value(s, i, j2),
    decreases j2 - j,
{
    if j < j2 {
        lemma_digits_value_mono(s, i, j, j2 - 1);
        lemma_digits_value_nonneg(s, i, j2 - 1);
        assert(digits_value(s, i, j2 - 1) * 10 >= digits_value(s, i, j2 - 1)) by (nonlinear_arith)
            requires
                digits_value(s, i, j2 - 1) >= 0,
        ;
    }
}

/// Ten to the `k`.
pub open spec fn pow10(k: nat) -> int
    decreases k,
{
    if k == 0 {
        1
    } else {
        10 * pow10((k - 1) as nat)
    }
}

/// Powers of ten are positive and grow with the exponent.
pub proof fn lemma_pow10_pos(k: nat)
    ensures
        pow10(k) >= 1,
    decreases k,
{
    if k > 0 {
        lemma_pow10_pos((k - 1) as nat);
    }
}

/// Monotonicity of `pow10`.
pub proof fn lemma_pow10_mono(k1: nat, k2: nat)
    requires
        k1 <= k2,
    ensures
        pow10(k1) <= pow10(k2),
    decreases k2,
{
    if k1 < k2 {
        lemma_pow10_mono(k1, (k2 - 1) as nat);
        lemma_pow10_pos((k2 - 1) as nat);
    }
}

/// The position just past the closing quote of a string literal whose body
/// starts at `i`, or `None` when the literal is unterminated. A quote
/// preceded by a backslash does not close the literal.
pub open spec fn scan_str_end(s: Seq<char>, i: int) -> Option<int>
    decreases s.len() - i,
{
    if i >= s.len() {
        None
    } else if s[i] == '\'' {
        Some(i + 1)
    } else if s[i] == '\\' && i + 1 < s.len() && s[i + 1] == '\'' {
        scan_str_end(s, i + 2)
    } else {
        scan_str_end(s, i + 1)
    }
}

/// A found string end lies inside the input, past where scanning began.
pub proof fn lemma_scan_str_end_bounds(s: Seq<char>, i: int)
    requires
        0 <= i <= s.len(),
        scan_str_end(s, i) is Some,
    ensures
        i < scan_str_end(s, i).unwrap() <= s.len(),
    decreases s.len() - i,
{
    if i >= s.len() {
    } else if s[i] == '\'' {
    } else if s[i] == '\\' && i + 1 < s.len() && s[i + 1] == '\'' {
        lemma_scan_str_end_bounds(s, i + 2);
    } else {
        lemma_scan_str_end_bounds(s, i + 1);
    }
}

/// The end of the maximal run of bareword characters beginning at `i`.
pub open spec fn scan_ident_end(s: Seq<char>, i: int) -> int
    decreases s.len() - i,
{
    if 0 <= i < s.len() && is_ident_char(s[i]) {
        scan_ident_end(s, i + 1)
    } else {
        i
    }
}

/// The bareword run stays inside the input.
pub proof fn lemma_scan_ident_end_bounds(s: Seq<char>, i: int)
    requires
        0 <= i <= s.len(),
    ensures
        i <= scan_ident_end(s, i) <= s.len(),
    decreases s.len() - i,
{
    if 0 <= i < s.len() && is_ident_char(s[i]) {
        lemma_scan_ident_end_bounds(s, i + 1);
    }
}

fn digits_end(input: &Vec<char>, start: usize) -> (r: usize)
    requires
        start <= input.len(),
    ensures
        r as int == scan_digits(input@, start as int),
        start <= r <= input.len(),
{
    let mut pos = start;
    while pos < input.len() && digit_char(input[pos])
        invariant
            start <= pos <= input.len(),
            scan_digits(input@, pos as int) == scan_digits(input@, start as int),
        decreases input.len() - pos,
    {
        pos += 1;
    }
    pos
}

fn ident_end(input: &Vec<char>, start: usize) -> (r: usize)
    requires
        start <= input.len(),
    ensures
        r as int == scan_ident_end(input@, start as int),
        start <= r <= input.len(),
{
    let mut pos = start;
    while pos < input.len() && ident_char(input[pos])
        invariant
            start <= pos <= input.len(),
            scan_ident_end(input@, pos as int) == scan_ident_end(input@, start as int),
        decreases input.len() - pos,
    {
        pos += 1;
    }
    pos
}

fn str_end(input: &Vec<char>, start: usize) -> (r: Option<usize>)
    requires
        start <= input.len(),
    ensures
        scan_str_end(input@, start as int) matches Some(e) ==> (r matches Some(v) && v as int == e
            && start < v <= input.len()),
        scan_str_end(input@, start as int) is None ==> r is None,
{
    let mut pos = start;
    loop
        invariant
            start <= pos <= input.len(),
            scan_str_end(input@, pos as int) == scan_str_end(input@, start as int),
        decreases input.len() - pos,
    {
        if pos >= input.len() {
            return None;
        }
        let c = input[pos];
        if c == '\'' {
            return Some(pos + 1);
        } else if c == '\\' && pos + 1 < input.len() && input[pos + 1] == '\'' {
            pos += 2;
        } else {
            pos += 1;
        }
    }
}

/// The value of a digit run, or `None` exactly when it exceeds `i128::MAX`.
fn digits_val(input: &Vec<char>, start: usize, end: usize) -> (r: Option<i128>)
    requires
        start <= end <= input.len(),
        forall|k: int| start <= k < end ==> is_digit_char(#[trigger] input@[k]),
    ensures
        r is Some <==> digits_value(input@, start as int, end as int) <= i128::MAX,
        r matches Some(v) ==> v as int == digits_value(input@, start as int, end as int),
{
    let mut acc: i128 = 0;
    let mut k = start;
    while k < end
        invariant
            start <= k <= end <= input.len(),
            forall|t: int| start <= t < end ==> is_digit_char(#[trigger] input@[t]),
            acc as int == digits_value(input@, start as int, k as int),
            acc >= 0,
        decreases end - k,
    {
        let d = (input[k] as u32 - 48) as i128;
        let acc10 = match acc.checked_mul(10) {
            Some(v) => v,
            None => {
                proof {
                    assert(digits_value(input@, start as int, k as int + 1) > i128::MAX) by {
                        assert(digits_value(input@, start as int, k as int + 1) == acc * 10
                            + digit_val(input@[k as int]));
                        assert(digit_val(input@[k as int]) >= 0);
                    }
                    lemma_digits_value_mono(input@, start as int, k as int + 1, end as int);
                }
                return None;
            },
        };
        acc = match acc10.checked_add(d) {
            Some(v) => v,
            None => {
                proof {
                    assert(digits_value(input@, start as int, k as int + 1) > i128::MAX);
                    lemma_digits_value_mono(input@, start as int, k as int + 1, end as int);
                }
                return None;
            },
        };
        k += 1;
        proof {
            lemma_digits_value_nonneg(input@, start as int, k as int);
        }
    }
    Some(acc)
}

/// Ten to the `k` as an `i128`, or `None` exactly when it exceeds
/// `i128::MAX`.
fn pow10_exec(k: usize) -> (r: Option<i128>)
    ensures
        r is Some <==> pow10(k as nat) <= i128::MAX,
        r matches Some(v) ==> v as int == pow10(k as nat) && v >= 1,
{
    let mut acc: i128 = 1;
    let mut t: usize = 0;
    while t < k
        invariant
            t <= k,
            acc as int == pow10(t as nat),
            acc >= 1,
        decreases k - t,
    {
        acc = match acc.checked_mul(10) {
            Some(v) => v,
            None => {
                proof {
                    assert(pow10((t + 1) as nat) > i128::MAX);
                    lemma_pow10_mono((t + 1) as nat, k as nat);
                }
                return None;
            },
        };
        t += 1;
        proof {
            lemma_pow10_pos(t as nat);
        }
    }
    Some(acc)
}

/// Copy `input[a..b)`.
fn copy_range(input: &Vec<char>, a: usize, b: usize) -> (r: Vec<char>)
    requires
        a <= b <= input.len(),
    ensures
        r@ == input@.subrange(a as int, b as int),
{
    let mut r: Vec<char> = Vec::new();
    let mut k = a;
    while k < b
        invariant
            a <= k <= b <= input.len(),
            r.len() == k - a,
            forall|t: int| 0 <= t < r.len() ==> #[trigger] r@[t] == input@[a + t],
        decreases b - k,
    {
        r.push(input[k]);
        k += 1;
    }
    proof {
        assert(r@ =~= input@.subrange(a as int, b as int));
    }
    r
}

// ---------------------------------------------------------------------------
// One token
// ---------------------------------------------------------------------------

/// The outcome of scanning one token: clean end of input, a token and the
/// position after it, or a lexical error at an offset.
pub enum NextTok {
    Done,
    Tok(TokenV, int),
    Fail(int),
}

/// The token scanned for a numeric literal whose digits start at `j`
/// (`start` points at the leading minus sign, if any). The literal is the
/// maximal run of digits with at most one decimal point; it must hold at
/// least one digit, and its exact value must fit an `i128` fraction.
pub open spec fn scan_number(s: Seq<char>, start: int, j: int, neg: bool) -> NextTok {
    let d1 = scan_digits(s, j);
    if d1 < s.len() && s[d1] == '.' {
        let d2 = scan_digits(s, d1 + 1);
        if d1 == j && d2 == d1 + 1 {
            NextTok::Fail(start)
        } else {
            let fl = (d2 - d1 - 1) as nat;
            let mant = digits_value(s, j, d1) * pow10(fl) + digits_value(s, d1 + 1, d2);
            let den = pow10(fl);
            if mant > i128::MAX || den > i128::MAX {
                NextTok::Fail(start)
            } else {
                NextTok::Tok(TokenV::Scalar(if neg { -mant } else { mant }, den), d2)
            }
        }
    } else {
        if d1 == j {
            NextTok::Fail(start)
        } else {
            let mant = digits_value(s, j, d1);
            if mant > i128::MAX {
                NextTok::Fail(start)
            } else {
                NextTok::Tok(TokenV::Scalar(if neg { -mant } else { mant }, 1), d1)
            }
        }
    }
}

/// The next token of the input, starting at position `i`: trivia is
/// skipped, then the rules of the language are tried in order —
/// single-character punctuation, string literals, minus fused onto a
/// following numeric literal, numeric literals, barewords looked up in the
/// keyword table — and any other character is a lexical error.
pub open spec fn next_token_spec(s: Seq<char>, i: int) -> NextTok {
    match skip_trivia(s, i, TriviaMode::Normal) {
        None => NextTok::Fail(s.len() as int),
        Some(j) => {
            if j >= s.len() {
                NextTok::Done
            } else {
                let c = s[j];
                if c == ';' {
                    NextTok::Tok(TokenV::Semicolon, j + 1)
                } else if c == ',' {
                    NextTok::Tok(TokenV::Comma, j + 1)
                } else if c == '{' {
                    NextTok::Tok(TokenV::LBrace, j + 1)
                } else if c == '}' {
                    NextTok::Tok(TokenV::RBrace, j + 1)
                } else if c == '(' {
                    NextTok::Tok(TokenV::LParen, j + 1)
                } else if c == ')' {
                    NextTok::Tok(TokenV::RParen, j + 1)
                } else if c == '=' {
                    NextTok::Tok(TokenV::Equals, j + 1)
                } else if c == '\'' {
                    match scan_str_end(s, j + 1) {
                        None => NextTok::Fail(j),
                        Some(e) => NextTok::Tok(TokenV::StrLit(s.subrange(j, e)), e),
                    }
                } else if c == '-' {
                    if j + 1 < s.len() && (is_digit_char(s[j + 1]) || s[j + 1] == '.') {
                        scan_number(s, j, j + 1, true)
                    } else {
                        NextTok::Tok(TokenV::Minus, j + 1)
                    }
                } else if is_digit_char(c) || c == '.' {
                    scan_number(s, j, j, false)
                } else if is_alpha_char(c) {
                    NextTok::Tok(
                        keyword_or_ident(s.subrange(j, scan_ident_end(s, j))),
                        scan_ident_end(s, j),
                    )
                } else {
                    NextTok::Fail(j)
                }
            }
        },
    }
}

// ---------------------------------------------------------------------------
// The whole input
// ---------------------------------------------------------------------------

/// The outcome of lexing a whole input: its token sequence, or the offset
/// of the first lexical error.
pub enum LexOut {
    Toks(Seq<TokenV>),
    Fail(int),
}

/// All tokens of the input from position `i` on.
pub open spec fn lex_from(s: Seq<char>, i: int) -> LexOut
    decreases s.len() - i,
{
    match next_token_spec(s, i) {
        NextTok::Done => LexOut::Toks(Seq::empty()),
        NextTok::Fail(o) => LexOut::Fail(o),
        NextTok::Tok(t, j) => {
            if i < j <= s.len() {
                match lex_from(s, j) {
                    LexOut::Toks(ts) => LexOut::Toks(seq![t] + ts),
                    LexOut::Fail(o) => LexOut::Fail(o),
                }
            } else {
                LexOut::Fail(i)
            }
        },
    }
}

/// Tokens already scanned, prepended to the outcome of the rest.
pub open spec fn lex_prepend(pre: Seq<TokenV>, rest: LexOut) -> LexOut {
    match rest {
        LexOut::Toks(ts) => LexOut::Toks(pre + ts),
        LexOut::Fail(o) => LexOut::Fail(o),
    }
}

/// The mathematical values of a sequence of tokens.
pub open spec fn views_of(v: Seq<Token>) -> Seq<TokenV> {
    v.map_values(|t: Token| t@)
}

/// The scanner: a cursor over the input characters.
pub struct RayTokenizer {
    pub input: Vec<char>,
    pub position: usize,
}

impl RayTokenizer {
    /// A scanner at the start of the given source text.
    pub fn new(input: &str) -> (r: RayTokenizer)
        ensures
            r.input@ == input@,
            r.position == 0,
    {
        let n = input.unicode_len();
        let mut v: Vec<char> = Vec::new();
        let mut i: usize = 0;
        while i < n
            invariant
                n == input@.len(),
                i <= n,
                v.len() == i,
                forall|k: int| 0 <= k < i ==> #[trigger] v@[k] == input@[k],
            decreases n - i,
        {
            v.push(input.get_char(i));
            i += 1;
        }
        proof {
            assert(v@ =~= input@);
        }
        RayTokenizer { input: v, position: 0 }
    }

    /// Scan a numeric literal whose digits start at `j`; `start` is where
    /// the whole literal (including a minus sign) starts.
    fn scan_number_exec(&mut self, start: usize, j: usize, neg: bool) -> (r: Result<
        Option<Token>,
        TokenizationError,
    >)
        requires
            old(self).position <= old(self).input.len(),
            start <= j <= old(self).input.len(),
        ensures
            final(self).input@ == old(self).input@,
            final(self).position <= final(self).input.len(),
            scan_number(old(self).input@, start as int, j as int, neg) matches NextTok::Tok(t, e)
                ==> (r matches Ok(o) && o matches Some(tok) && tok@ == t && final(self).position
                as int == e && e > j),
            scan_number(old(self).input@, start as int, j as int, neg) matches NextTok::Fail(o)
                ==> (r matches Err(er) && er.kind == ErrorKind::Lexical && er.offset as int == o),
            !(scan_number(old(self).input@, start as int, j as int, neg) is Done),
            r is Err ==> final(self).position == old(self).position,
    {
        proof {
            lemma_scan_digits_bounds(self.input@, j as int);
        }
        let d1 = digits_end(&self.input, j);
        if d1 < self.input.len() && self.input[d1] == '.' {
            proof {
                lemma_scan_digits_bounds(self.input@, d1 as int + 1);
            }
            let d2 = digits_end(&self.input, d1 + 1);
            if d1 == j && d2 == d1 + 1 {
                return Err(TokenizationError::at(
                    ErrorKind::Lexical,
                    start,
                    "malformed numeric literal",
                ));
            }
            let fl = d2 - (d1 + 1);
            let ghost gfl = (d2 as int - d1 as int - 1) as nat;
            let ghost intv = digits_value(self.input@, j as int, d1 as int);
            let ghost frac = digits_value(self.input@, d1 as int + 1, d2 as int);
            let ghost mant = intv * pow10(gfl) + frac;
            proof {
                lemma_digits_value_nonneg(self.input@, j as int, d1 as int);
                lemma_digits_value_nonneg(self.input@, d1 as int + 1, d2 as int);
                lemma_pow10_pos(gfl);
                assert(intv * pow10(gfl) >= intv) by (nonlinear_arith)
                    requires
                        intv >= 0,
                        pow10(gfl) >= 1,
                ;
            }
            let p = match pow10_exec(fl) {
                Some(p) => p,
                None => {
                    return Err(TokenizationError::at(
                        ErrorKind::Lexical,
                        start,
                        "numeric literal out of range",
                    ));
                },
            };
            let intval = match digits_val(&self.input, j, d1) {
                Some(v) => v,
                None => {
                    return Err(TokenizationError::at(
                        ErrorKind::Lexical,
                        start,
                        "numeric literal out of range",
                    ));
                },
            };
            let m1 = match intval.checked_mul(p) {
                Some(v) => v,
                None => {
                    proof {
                        assert(mant > i128::MAX);
                    }
                    return Err(TokenizationError::at(
                        ErrorKind::Lexical,
                        start,
                        "numeric literal out of range",
                    ));
                },
            };
            let fracval = match digits_val(&self.input, d1 + 1, d2) {
                Some(v) => v,
                None => {
                    proof {
                        assert(mant > i128::MAX);
                    }
                    return Err(TokenizationError::at(
                        ErrorKind::Lexical,
                        start,
                        "numeric literal out of range",
                    ));
                },
            };
            let m = match m1.checked_add(fracval) {
                Some(v) => v,
                None => {
                    return Err(TokenizationError::at(
                        ErrorKind::Lexical,
                        start,
                        "numeric literal out of range",
                    ));
                },
            };
            let num: i128 = if neg {
                -m
            } else {
                m
            };
            self.position = d2;
            Ok(Some(Token::Scalar(Rat { num, den: p })))
        } else {
            if d1 == j {
                return Err(TokenizationError::at(
                    ErrorKind::Lexical,
                    start,
                    "malformed numeric literal",
                ));
            }
            let m = match digits_val(&self.input, j, d1) {
                Some(v) => v,
                None => {
                    return Err(TokenizationError::at(
                        ErrorKind::Lexical,
                        start,
                        "numeric literal out of range",
                    ));
                },
            };
            proof {
                lemma_digits_value_nonneg(self.input@, j as int, d1 as int);
            }
            let num: i128 = if neg {
                -m
            } else {
                m
            };
            self.position = d1;
            Ok(Some(Token::Scalar(Rat { num, den: 1 })))
        }
    }

    /// Scan the next token: exactly what `next_token_spec` prescribes at
    /// the current position. `Ok(None)` is the clean end of the input.
    pub fn next_token(&mut self) -> (r: Result<Option<Token>, TokenizationError>)
        requires
            old(self).position <= old(self).input.len(),
        ensures
            final(self).input@ == old(self).input@,
            final(self).position <= final(self).input.len(),
            next_token_spec(old(self).input@, old(self).position as int) is Done ==> (r
                matches Ok(o) && o is None && final(self).position == final(self).input.len()),
            next_token_spec(old(self).input@, old(self).position as int) matches NextTok::Tok(
                t,
                j,
            ) ==> (r matches Ok(o) && o matches Some(tok) && tok@ == t && final(self).position
                as int == j && j > old(self).position),
            next_token_spec(old(self).input@, old(self).position as int) matches NextTok::Fail(o)
                ==> (r matches Err(e) && e.kind == ErrorKind::Lexical && e.offset as int == o),
            r is Err ==> final(self).position as int == (match skip_trivia(
                old(self).input@,
                old(self).position as int,
                TriviaMode::Normal,
            ) {
                Some(j) => j,
                None => old(self).position as int,
            }),
    {
        let j = match trivia_end(&self.input, self.position) {
            Ok(j) => j,
            Err(o) => {
                return Err(TokenizationError::at(
                    ErrorKind::Lexical,
                    o,
                    "unterminated block comment",
                ));
            },
        };
        self.position = j;
        if j >= self.input.len() {
            return Ok(None);
        }
        let c = self.input[j];
        if c == ';' {
            self.position = j + 1;
            Ok(Some(Token::Semicolon))
        } else if c == ',' {
            self.position = j + 1;
            Ok(Some(Token::Comma))
        } else if c == '{' {
            self.position = j + 1;
            Ok(Some(Token::LBrace))
        } else if c == '}' {
            self.position = j + 1;
            Ok(Some(Token::RBrace))
        } else if c == '(' {
            self.position = j + 1;
            Ok(Some(Token::LParen))
        } else if c == ')' {
            self.position = j + 1;
            Ok(Some(Token::RParen))
        } else if c == '=' {
            self.position = j + 1;
            Ok(Some(Token::Equals))
        } else if c == '\'' {
            match str_end(&self.input, j + 1) {
                None => Err(TokenizationError::at(
                    ErrorKind::Lexical,
                    j,
                    "unterminated string literal",
                )),
                Some(e) => {
                    let text = copy_range(&self.input, j, e);
                    self.position = e;
                    Ok(Some(Token::StrLit(text)))
                },
            }
        } else if c == '-' {
            if j + 1 < self.input.len() && (digit_char(self.input[j + 1]) || self.input[j + 1]
                == '.') {
                self.scan_number_exec(j, j + 1, true)
            } else {
                self.position = j + 1;
                Ok(Some(Token::Minus))
            }
        } else if digit_char(c) || c == '.' {
            self.scan_number_exec(j, j, false)
        } else if alpha_char(c) {
            proof {
                assert(is_ident_char(self.input@[j as int]));
                assert(scan_ident_end(self.input@, j as int) == scan_ident_end(
                    self.input@,
                    j as int + 1,
                ));
                lemma_scan_ident_end_bounds(self.input@, j as int + 1);
            }
            let e = ident_end(&self.input, j);
            let w = copy_range(&self.input, j, e);
            let t = lookup_bareword(&w);
            self.position = e;
            Ok(Some(t))
        } else {
            Err(TokenizationError::at(ErrorKind::Lexical, j, "unrecognized character"))
        }
    }

    /// Scan the whole input: the token sequence that `lex_from` gives, or
    /// the lexical error at the offset `lex_from` fails with.
    pub fn tokenize(&mut self) -> (r: Result<Vec<Token>, TokenizationError>)
        requires
            old(self).position <= old(self).input.len(),
        ensures
            lex_from(old(self).input@, old(self).position as int) matches LexOut::Toks(ts) ==> (r
                matches Ok(v) && views_of(v@) == ts),
            lex_from(old(self).input@, old(self).position as int) matches LexOut::Fail(o) ==> (r
                matches Err(e) && e.kind == ErrorKind::Lexical && e.offset as int == o),
    {
        let ghost s = old(self).input@;
        let ghost p0 = old(self).position as int;
        let mut acc: Vec<Token> = Vec::new();
        proof {
            assert(views_of(acc@) =~= Seq::<TokenV>::empty());
            match lex_from(s, p0) {
                LexOut::Toks(ts) => {
                    assert(views_of(acc@) + ts =~= ts);
                },
                LexOut::Fail(_) => {},
            }
        }
        loop
            invariant
                s == old(self).input@,
                p0 == old(self).position as int,
                self.position <= self.input.len(),
                self.input@ == s,
                lex_from(s, p0) == lex_prepend(views_of(acc@), lex_from(s, self.position as int)),
            decreases self.input.len() - self.position,
        {
            let ghost pos_before = self.position as int;
            match self.next_token() {
                Err(e) => {
                    proof {
                        assert(lex_from(s, pos_before) is Fail);
                    }
                    return Err(e);
                },
                Ok(None) => {
                    proof {
                        assert(lex_from(s, pos_before) == LexOut::Toks(Seq::<TokenV>::empty()));
                        assert(views_of(acc@) + Seq::<TokenV>::empty() =~= views_of(acc@));
                    }
                    return Ok(acc);
                },
                Ok(Some(tok)) => {
                    proof {
                        let t = tok@;
                        let jj = self.position as int;
                        assert(next_token_spec(s, pos_before) == NextTok::Tok(t, jj));
                        assert(lex_from(s, pos_before) == (match lex_from(s, jj) {
                            LexOut::Toks(ts) => LexOut::Toks(seq![t] + ts),
                            LexOut::Fail(o) => LexOut::Fail(o),
                        }));
                        assert(views_of(acc@.push(tok)) =~= views_of(acc@).push(t));
                        match lex_from(s, jj) {
                            LexOut::Toks(ts) => {
                                assert(views_of(acc@).push(t) + ts =~= views_of(acc@) + (seq![t]
                                    + ts));
                            },
                            LexOut::Fail(_) => {},
                        }
                    }
                    acc.push(tok);
                },
            }
        }
    }
}

} // verus!
