//! Lexical tokens.
//!
//! A token never owns text: `Number` and `Ident` tokens carry the byte span
//! `[start, end)` of their literal inside the input, so tokens are plain
//! copyable values with structural equality.

use vstd::prelude::*;

verus! {

/// The kind of a lexical token.
#[derive(Clone, Copy, Debug, PartialEq, Eq, Structural)]
pub enum TokenKind {
    /// Decimal numeric literal (optional fraction and exponent).
    Number,
    /// Identifier: `[a-zA-Z_][a-zA-Z0-9_]*`.
    Ident,
    Plus,
    Minus,
    Star,
    Slash,
    Caret,
    LParen,
    RParen,
    Comma,
    /// Sentinel appended after the last real token.
    End,
}

/// One token, with the byte span it covers in the input.
#[derive(Clone, Copy, Debug, PartialEq, Eq, Structural)]
pub struct Token {
    pub kind: TokenKind,
    /// Byte offset of the first byte of the token.
    pub start: usize,
    /// Byte offset one past the last byte of the token.
    pub end: usize,
}

/// Every span in the token list lies inside an input of length `n`.
pub open spec fn tokens_wf(ts: Seq<Token>, n: int) -> bool {
    forall|k: int| 0 <= k < ts.len() ==> (#[trigger] ts[k]).start <= ts[k].end <= n
}

} // verus!
