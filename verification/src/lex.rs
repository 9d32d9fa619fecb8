//! Tokenizer.
//!
//! `tokenize` scans the input bytes left to right, skips whitespace, and
//! recognizes decimal numeric literals (optional fraction and exponent),
//! identifiers, the operators `+ - * / ^`, parentheses and the comma. The
//! stream always ends with an explicit [`TokenKind::End`] sentinel. The
//! executable scanner returns exactly the value of the specification
//! function [`spec_tokenize`].

use vstd::prelude::*;
use crate::token::{Token, TokenKind, tokens_wf};

verus! {

/// A byte that no token rule matches, and the position where it stands.
#[derive(Clone, Copy, Debug, PartialEq, Eq, Structural)]
pub struct LexError {
    pub pos: usize,
    pub byte: u8,
}

/// ASCII space, tab, line feed or carriage return.
pub open spec fn spec_is_ws(b: u8) -> bool {
    b == 0x20 || b == 0x09 || b == 0x0A || b == 0x0D
}

/// ASCII decimal digit `0`..`9`.
pub open spec fn spec_is_digit(b: u8) -> bool {
    0x30 <= b && b <= 0x39
}

/// ASCII letter or underscore: what an identifier may start with.
pub open spec fn spec_is_alpha(b: u8) -> bool {
    (0x41 <= b && b <= 0x5A) || (0x61 <= b && b <= 0x7A) || b == 0x5F
}

/// Letter, underscore or digit: what an identifier may continue with.
pub open spec fn spec_is_ident_char(b: u8) -> bool {
    spec_is_alpha(b) || spec_is_digit(b)
}

/// Kind of a one-byte operator or punctuation token, if the byte is one.
pub open spec fn spec_single_kind(b: u8) -> Option<TokenKind> {
    if b == 0x2B {
        Some(TokenKind::Plus)
    } else if b == 0x2D {
        Some(TokenKind::Minus)
    } else if b == 0x2A {
        Some(TokenKind::Star)
    } else if b == 0x2F {
        Some(TokenKind::Slash)
    } else if b == 0x5E {
        Some(TokenKind::Caret)
    } else if b == 0x28 {
        Some(TokenKind::LParen)
    } else if b == 0x29 {
        Some(TokenKind::RParen)
    } else if b == 0x2C {
        Some(TokenKind::Comma)
    } else {
        None
    }
}

/// First position at or after `i` that does not hold a whitespace byte.
pub open spec fn skip_ws_end(s: Seq<u8>, i: int) -> int
    decreases s.len() - i
{
    if i < s.len() && spec_is_ws(s[i]) {
        skip_ws_end(s, i + 1)
    } else {
        i
    }
}

pub proof fn lemma_skip_ws_end(s: Seq<u8>, i: int)
    ensures
        i <= skip_ws_end(s, i),
        i <= s.len() ==> skip_ws_end(s, i) <= s.len(),
    decreases s.len() - i
{
    if i < s.len() && spec_is_ws(s[i]) {
        lemma_skip_ws_end(s, i + 1);
    }
}

/// First position at or after `i` that does not hold a digit.
pub open spec fn digits_end(s: Seq<u8>, i: int) -> int
    decreases s.len() - i
{
    if i < s.len() && spec_is_digit(s[i]) {
        digits_end(s, i + 1)
    } else {
        i
    }
}

pub proof fn lemma_digits_end(s: Seq<u8>, i: int)
    ensures
        i <= digits_end(s, i),
        i <= s.len() ==> digits_end(s, i) <= s.len(),
    decreases s.len() - i
{
    if i < s.len() && spec_is_digit(s[i]) {
        lemma_digits_end(s, i + 1);
    }
}

/// First position at or after `i` that does not hold an identifier byte.
pub open spec fn ident_chars_end(s: Seq<u8>, i: int) -> int
    decreases s.len() - i
{
    if i < s.len() && spec_is_ident_char(s[i]) {
        ident_chars_end(s, i + 1)
    } else {
        i
    }
}

pub proof fn lemma_ident_chars_end(s: Seq<u8>, i: int)
    ensures
        i <= ident_chars_end(s, i),
        i <= s.len() ==> ident_chars_end(s, i) <= s.len(),
    decreases s.len() - i
{
    if i < s.len() && spec_is_ident_char(s[i]) {
        lemma_ident_chars_end(s, i + 1);
    }
}

/// End of the numeric literal that starts at `i`: digits, an optional
/// fraction `.` followed by at least one digit, and an optional exponent
/// `e`/`E` with optional sign followed by at least one digit. A malformed
/// exponent is not consumed.
pub open spec fn spec_number_end(s: Seq<u8>, i: int) -> int {
    let d1 = digits_end(s, i);
    let d2 = if d1 < s.len() && s[d1] == 0x2E && d1 + 1 < s.len() && spec_is_digit(s[d1 + 1]) {
        digits_end(s, d1 + 1)
    } else {
        d1
    };
    if d2 < s.len() && (s[d2] == 0x65 || s[d2] == 0x45) {
        let j = if d2 + 1 < s.len() && (s[d2 + 1] == 0x2B || s[d2 + 1] == 0x2D) {
            d2 + 2
        } else {
            d2 + 1
        };
        if j < s.len() && spec_is_digit(s[j]) {
            digits_end(s, j)
        } else {
            d2
        }
    } else {
        d2
    }
}

pub proof fn lemma_number_end(s: Seq<u8>, i: int)
    requires
        i < s.len(),
        spec_is_digit(s[i]),
    ensures
        i < spec_number_end(s, i) <= s.len(),
{
    assert(digits_end(s, i) == digits_end(s, i + 1));
    lemma_digits_end(s, i + 1);
    let d1 = digits_end(s, i);
    if d1 < s.len() && s[d1] == 0x2E && d1 + 1 < s.len() && spec_is_digit(s[d1 + 1]) {
        lemma_digits_end(s, d1 + 1);
    }
    let d2 = if d1 < s.len() && s[d1] == 0x2E && d1 + 1 < s.len() && spec_is_digit(s[d1 + 1]) {
        digits_end(s, d1 + 1)
    } else {
        d1
    };
    if d2 < s.len() && (s[d2] == 0x65 || s[d2] == 0x45) {
        let j = if d2 + 1 < s.len() && (s[d2 + 1] == 0x2B || s[d2 + 1] == 0x2D) {
            d2 + 2
        } else {
            d2 + 1
        };
        if j < s.len() && spec_is_digit(s[j]) {
            lemma_digits_end(s, j);
        }
    }
}

/// The token sequence of the input suffix that starts at `i`, or the first
/// lexical error in it. The result always ends with the `End` sentinel.
pub open spec fn spec_tokenize_from(s: Seq<u8>, i: int) -> Result<Seq<Token>, LexError>
    decreases s.len() - i
{
    let j = skip_ws_end(s, i);
    if j >= s.len() {
        Ok(seq![Token { kind: TokenKind::End, start: s.len() as usize, end: s.len() as usize }])
    } else {
        proof {
            lemma_skip_ws_end(s, i);
        }
        let b = s[j];
        if spec_is_digit(b) {
            let e = spec_number_end(s, j);
            proof {
                lemma_number_end(s, j);
            }
            let tok = Token { kind: TokenKind::Number, start: j as usize, end: e as usize };
            match spec_tokenize_from(s, e) {
                Ok(rest) => Ok(seq![tok] + rest),
                Err(x) => Err(x),
            }
        } else if spec_is_alpha(b) {
            let e = ident_chars_end(s, j);
            proof {
                assert(ident_chars_end(s, j) == ident_chars_end(s, j + 1));
                lemma_ident_chars_end(s, j + 1);
            }
            let tok = Token { kind: TokenKind::Ident, start: j as usize, end: e as usize };
            match spec_tokenize_from(s, e) {
                Ok(rest) => Ok(seq![tok] + rest),
                Err(x) => Err(x),
            }
        } else {
            match spec_single_kind(b) {
                Some(k) => {
                    let tok = Token { kind: k, start: j as usize, end: (j + 1) as usize };
                    match spec_tokenize_from(s, j + 1) {
                        Ok(rest) => Ok(seq![tok] + rest),
                        Err(x) => Err(x),
                    }
                },
                None => Err(LexError { pos: j as usize, byte: b }),
            }
        }
    }
}

/// The token sequence of the whole input, or its first lexical error.
pub open spec fn spec_tokenize(s: Seq<u8>) -> Result<Seq<Token>, LexError> {
    spec_tokenize_from(s, 0)
}

/// The well-formedness carried by a token list: non-empty, ends with the
/// `End` sentinel, every span inside an input of length `n`.
pub open spec fn token_list_wf(ts: Seq<Token>, n: int) -> bool {
    &&& ts.len() >= 1
    &&& ts[ts.len() - 1].kind == TokenKind::End
    &&& tokens_wf(ts, n)
}

proof fn lemma_cons_wf(tok: Token, rest: Seq<Token>, n: int)
    requires
        tok.start <= tok.end <= n,
        token_list_wf(rest, n),
    ensures
        token_list_wf(seq![tok] + rest, n),
{
    let ts = seq![tok] + rest;
    assert(ts[ts.len() - 1] == rest[rest.len() - 1]);
    assert forall|k: int| 0 <= k < ts.len() implies (#[trigger] ts[k]).start <= ts[k].end <= n by {
        if k == 0 {
            assert(ts[0] == tok);
        } else {
            assert(ts[k] == rest[k - 1]);
        }
    }
}

/// A successful scan yields at least the sentinel, ends with it, and every
/// span lies inside the input.
pub proof fn lemma_tokenize_wf(s: Seq<u8>, i: int)
    requires
        0 <= i <= s.len(),
        s.len() <= usize::MAX,
    ensures
        spec_tokenize_from(s, i) matches Ok(ts) ==> token_list_wf(ts, s.len() as int),
    decreases s.len() - i
{
    lemma_skip_ws_end(s, i);
    let j = skip_ws_end(s, i);
    if j >= s.len() {
        let ts = seq![Token { kind: TokenKind::End, start: s.len() as usize, end: s.len() as usize }];
        assert(ts[0].start <= ts[0].end <= s.len());
        assert(token_list_wf(ts, s.len() as int));
    } else {
        let b = s[j];
        if spec_is_digit(b) {
            lemma_number_end(s, j);
            let e = spec_number_end(s, j);
            lemma_tokenize_wf(s, e);
            if let Ok(rest) = spec_tokenize_from(s, e) {
                let tok = Token { kind: TokenKind::Number, start: j as usize, end: e as usize };
                lemma_cons_wf(tok, rest, s.len() as int);
            }
        } else if spec_is_alpha(b) {
            assert(ident_chars_end(s, j) == ident_chars_end(s, j + 1));
            lemma_ident_chars_end(s, j + 1);
            let e = ident_chars_end(s, j);
            lemma_tokenize_wf(s, e);
            if let Ok(rest) = spec_tokenize_from(s, e) {
                let tok = Token { kind: TokenKind::Ident, start: j as usize, end: e as usize };
                lemma_cons_wf(tok, rest, s.len() as int);
            }
        } else {
            if let Some(k) = spec_single_kind(b) {
                lemma_tokenize_wf(s, j + 1);
                if let Ok(rest) = spec_tokenize_from(s, j + 1) {
                    let tok = Token { kind: k, start: j as usize, end: (j + 1) as usize };
                    lemma_cons_wf(tok, rest, s.len() as int);
                }
            }
        }
    }
}

/// Executable whitespace test, equal to [`spec_is_ws`].
pub fn is_ws(b: u8) -> (r: bool)
    ensures
        r == spec_is_ws(b),
{
    b == 0x20 || b == 0x09 || b == 0x0A || b == 0x0D
}

/// Executable digit test, equal to [`spec_is_digit`].
pub fn is_digit(b: u8) -> (r: bool)
    ensures
        r == spec_is_digit(b),
{
    0x30 <= b && b <= 0x39
}

/// Executable identifier-start test, equal to [`spec_is_alpha`].
pub fn is_alpha(b: u8) -> (r: bool)
    ensures
        r == spec_is_alpha(b),
{
    (0x41 <= b && b <= 0x5A) || (0x61 <= b && b <= 0x7A) || b == 0x5F
}

/// Executable identifier-continuation test, equal to [`spec_is_ident_char`].
pub fn is_ident_char(b: u8) -> (r: bool)
    ensures
        r == spec_is_ident_char(b),
{
    is_alpha(b) || is_digit(b)
}

fn single_kind(b: u8) -> (r: Option<TokenKind>)
    ensures
        r == spec_single_kind(b),
{
    if b == 0x2B {
        Some(TokenKind::Plus)
    } else if b == 0x2D {
        Some(TokenKind::Minus)
    } else if b == 0x2A {
        Some(TokenKind::Star)
    } else if b == 0x2F {
        Some(TokenKind::Slash)
    } else if b == 0x5E {
        Some(TokenKind::Caret)
    } else if b == 0x28 {
        Some(TokenKind::LParen)
    } else if b == 0x29 {
        Some(TokenKind::RParen)
    } else if b == 0x2C {
        Some(TokenKind::Comma)
    } else {
        None
    }
}

fn skip_ws_x(s: &[u8], i: usize) -> (r: usize)
    requires
        i <= s@.len(),
    ensures
        r as int == skip_ws_end(s@, i as int),
        i <= r <= s@.len(),
    decreases s@.len() - i
{
    if i < s.len() && is_ws(s[i]) {
        skip_ws_x(s, i + 1)
    } else {
        i
    }
}

fn digits_end_x(s: &[u8], i: usize) -> (r: usize)
    requires
        i <= s@.len(),
    ensures
        r as int == digits_end(s@, i as int),
        i <= r <= s@.len(),
    decreases s@.len() - i
{
    if i < s.len() && is_digit(s[i]) {
        digits_end_x(s, i + 1)
    } else {
        i
    }
}

fn ident_chars_end_x(s: &[u8], i: usize) -> (r: usize)
    requires
        i <= s@.len(),
    ensures
        r as int == ident_chars_end(s@, i as int),
        i <= r <= s@.len(),
    decreases s@.len() - i
{
    if i < s.len() && is_ident_char(s[i]) {
        ident_chars_end_x(s, i + 1)
    } else {
        i
    }
}

fn number_end_x(s: &[u8], i: usize) -> (r: usize)
    requires
        i <= s@.len(),
    ensures
        r as int == spec_number_end(s@, i as int),
        i <= r <= s@.len(),
{
    let d1 = digits_end_x(s, i);
    let d2 = if d1 < s.len() && s[d1] == 0x2E && d1 + 1 < s.len() && is_digit(s[d1 + 1]) {
        digits_end_x(s, d1 + 1)
    } else {
        d1
    };
    if d2 < s.len() && (s[d2] == 0x65 || s[d2] == 0x45) {
        let j = if d2 + 1 < s.len() && (s[d2 + 1] == 0x2B || s[d2 + 1] == 0x2D) {
            d2 + 2
        } else {
            d2 + 1
        };
        if j < s.len() && is_digit(s[j]) {
            digits_end_x(s, j)
        } else {
            d2
        }
    } else {
        d2
    }
}

fn lex_from(s: &[u8], i: usize) -> (r: Result<Vec<Token>, LexError>)
    requires
        i <= s@.len(),
    ensures
        match r {
            Ok(v) => spec_tokenize_from(s@, i as int) == Ok::<Seq<Token>, LexError>(v@),
            Err(e) => spec_tokenize_from(s@, i as int) == Err::<Seq<Token>, LexError>(e),
        },
    decreases s@.len() - i
{
    let j = skip_ws_x(s, i);
    if j >= s.len() {
        let mut v: Vec<Token> = Vec::new();
        let tok = Token { kind: TokenKind::End, start: s.len(), end: s.len() };
        v.push(tok);
        proof {
            assert(v@ =~= seq![tok]);
        }
        Ok(v)
    } else {
        let b = s[j];
        if is_digit(b) {
            let e = number_end_x(s, j);
            proof {
                lemma_number_end(s@, j as int);
            }
            let tok = Token { kind: TokenKind::Number, start: j, end: e };
            match lex_from(s, e) {
                Ok(mut rest) => {
                    let ghost r0 = rest@;
                    rest.insert(0, tok);
                    proof {
                        assert(rest@ =~= seq![tok] + r0);
                    }
                    Ok(rest)
                },
                Err(x) => Err(x),
            }
        } else if is_alpha(b) {
            let e = ident_chars_end_x(s, j);
            proof {
                assert(ident_chars_end(s@, j as int) == ident_chars_end(s@, j as int + 1));
                lemma_ident_chars_end(s@, j as int + 1);
            }
            let tok = Token { kind: TokenKind::Ident, start: j, end: e };
            match lex_from(s, e) {
                Ok(mut rest) => {
                    let ghost r0 = rest@;
                    rest.insert(0, tok);
                    proof {
                        assert(rest@ =~= seq![tok] + r0);
                    }
                    Ok(rest)
                },
                Err(x) => Err(x),
            }
        } else {
            match single_kind(b) {
                Some(k) => {
                    let tok = Token { kind: k, start: j, end: j + 1 };
                    match lex_from(s, j + 1) {
                        Ok(mut rest) => {
                            let ghost r0 = rest@;
                            rest.insert(0, tok);
                            proof {
                                assert(rest@ =~= seq![tok] + r0);
                            }
                            Ok(rest)
                        },
                        Err(x) => Err(x),
                    }
                },
                None => Err(LexError { pos: j, byte: b }),
            }
        }
    }
}

/// Scan the whole input into tokens, or report the first bad byte.
///
/// The result is exactly [`spec_tokenize`] of the input; on success the
/// token list ends with the `End` sentinel and every span lies inside the
/// input.
pub fn tokenize(s: &[u8]) -> (r: Result<Vec<Token>, LexError>)
    ensures
        match r {
            Ok(v) => {
                &&& spec_tokenize(s@) == Ok::<Seq<Token>, LexError>(v@)
                &&& token_list_wf(v@, s@.len() as int)
            },
            Err(e) => spec_tokenize(s@) == Err::<Seq<Token>, LexError>(e),
        },
{
    let n = s.len();
    proof {
        assert(s@.len() == n as int);
        lemma_tokenize_wf(s@, 0);
    }
    if n == 0 {
        let mut v: Vec<Token> = Vec::new();
        v.push(Token { kind: TokenKind::End, start: 0, end: 0 });
        proof {
            assert(v@ =~= seq![Token { kind: TokenKind::End, start: 0, end: 0 }]);
        }
        Ok(v)
    } else {
        lex_from(s, 0)
    }
}

} // verus!
