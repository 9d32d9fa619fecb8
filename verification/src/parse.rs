//! Parser.
//!
//! Recursive descent over the token list, honoring precedence (additive <
//! multiplicative < unary minus < power) and right-associativity of `^`.
//! Function names are resolved against a fixed registry at parse time, and
//! arity is checked there too, so evaluation never sees an unknown name or a
//! wrong argument count. The executable parser returns exactly the value of
//! the specification parser [`sp_parse`].

use vstd::prelude::*;
use crate::token::{Token, TokenKind, tokens_wf};
use crate::ast::{Expr, Func, BinOp, expr_wf, exprs_wf};

verus! {

/// A parse failure. Positions are byte offsets into the input; identifier
/// errors carry the byte span of the name.
#[derive(Clone, Copy, Debug, PartialEq, Eq, Structural)]
pub enum ParseError {
    /// A token that cannot stand at this point of the grammar.
    UnexpectedToken { pos: usize },
    /// The expression ended where more input was needed.
    UnexpectedEnd,
    /// An identifier that is neither `t`, nor `i`, nor a registry function.
    UnknownIdentifier { start: usize, end: usize },
    /// A registry function called with the wrong number of arguments.
    ArityMismatch { start: usize, end: usize, expected: usize, got: usize },
}

/// What a parsed identifier may call: a one-argument registry function, or
/// the two-argument `pow`, which parses to the power operator.
#[derive(Clone, Copy, Debug, PartialEq, Eq, Structural)]
pub enum Callable {
    Fn1(Func),
    Pow2,
}

/// Declared argument count of a callable.
pub open spec fn callable_arity(c: Callable) -> int {
    match c {
        Callable::Fn1(_) => 1,
        Callable::Pow2 => 2,
    }
}

/// The fixed function registry, looked up on the byte span `[st, en)` of an
/// identifier: `exp, sin, cos, sqrt, abs, conj, re, im` of one argument and
/// `pow` of two.
pub open spec fn spec_registry(s: Seq<u8>, st: int, en: int) -> Option<Callable> {
    let n = en - st;
    if n == 3 && s[st] == 0x65 && s[st + 1] == 0x78 && s[st + 2] == 0x70 {
        Some(Callable::Fn1(Func::Exp))  // exp
    } else if n == 3 && s[st] == 0x73 && s[st + 1] == 0x69 && s[st + 2] == 0x6E {
        Some(Callable::Fn1(Func::Sin))  // sin
    } else if n == 3 && s[st] == 0x63 && s[st + 1] == 0x6F && s[st + 2] == 0x73 {
        Some(Callable::Fn1(Func::Cos))  // cos
    } else if n == 4 && s[st] == 0x73 && s[st + 1] == 0x71 && s[st + 2] == 0x72 && s[st + 3] == 0x74 {
        Some(Callable::Fn1(Func::Sqrt))  // sqrt
    } else if n == 3 && s[st] == 0x61 && s[st + 1] == 0x62 && s[st + 2] == 0x73 {
        Some(Callable::Fn1(Func::Abs))  // abs
    } else if n == 4 && s[st] == 0x63 && s[st + 1] == 0x6F && s[st + 2] == 0x6E && s[st + 3] == 0x6A {
        Some(Callable::Fn1(Func::Conj))  // conj
    } else if n == 2 && s[st] == 0x72 && s[st + 1] == 0x65 {
        Some(Callable::Fn1(Func::Re))  // re
    } else if n == 2 && s[st] == 0x69 && s[st + 1] == 0x6D {
        Some(Callable::Fn1(Func::Im))  // im
    } else if n == 3 && s[st] == 0x70 && s[st + 1] == 0x6F && s[st + 2] == 0x77 {
        Some(Callable::Pow2)  // pow
    } else {
        None
    }
}

/// Clamp a continuation position into `(p, n]`, so that the termination
/// measure of the specification parser decreases definitionally. Whenever a
/// sub-parse made progress (`p < q <= n`), this is exactly `q`.
pub open spec fn adv(p: int, q: int, n: int) -> int {
    if p < q && q <= n {
        q
    } else if p + 1 <= n {
        p + 1
    } else {
        n
    }
}

// The specification parser. Each function returns the parsed node and the
// position of the first token after it, or the error. Grammar:
//   expr  := term (('+'|'-') term)*
//   term  := unary (('*'|'/') unary)*
//   unary := ('-')? power
//   power := atom ('^' unary)?
//   atom  := number | 'i' | 't' | identifier '(' args ')' | '(' expr ')'
//   args  := expr (',' expr)*

pub open spec fn sp_expr(s: Seq<u8>, ts: Seq<Token>, p: int) -> Result<(Expr, int), ParseError>
    decreases ts.len() - p, 4int
{
    if p < 0 || p >= ts.len() {
        Err(ParseError::UnexpectedEnd)
    } else {
        match sp_term(s, ts, p) {
            Ok((e, q)) => sp_expr_rest(s, ts, e, adv(p, q, ts.len() as int)),
            Err(x) => Err(x),
        }
    }
}

pub open spec fn sp_expr_rest(s: Seq<u8>, ts: Seq<Token>, left: Expr, p: int) -> Result<(Expr, int), ParseError>
    decreases ts.len() - p, 6int
{
    if 0 <= p < ts.len() && (ts[p].kind == TokenKind::Plus || ts[p].kind == TokenKind::Minus) {
        let op = if ts[p].kind == TokenKind::Plus {
            BinOp::Add
        } else {
            BinOp::Sub
        };
        match sp_term(s, ts, p + 1) {
            Ok((rt, q)) => sp_expr_rest(
                s,
                ts,
                Expr::Bin(op, Box::new(left), Box::new(rt)),
                adv(p + 1, q, ts.len() as int),
            ),
            Err(x) => Err(x),
        }
    } else {
        Ok((left, p))
    }
}

pub open spec fn sp_term(s: Seq<u8>, ts: Seq<Token>, p: int) -> Result<(Expr, int), ParseError>
    decreases ts.len() - p, 3int
{
    if p < 0 || p >= ts.len() {
        Err(ParseError::UnexpectedEnd)
    } else {
        match sp_unary(s, ts, p) {
            Ok((e, q)) => sp_term_rest(s, ts, e, adv(p, q, ts.len() as int)),
            Err(x) => Err(x),
        }
    }
}

pub open spec fn sp_term_rest(s: Seq<u8>, ts: Seq<Token>, left: Expr, p: int) -> Result<(Expr, int), ParseError>
    decreases ts.len() - p, 6int
{
    if 0 <= p < ts.len() && (ts[p].kind == TokenKind::Star || ts[p].kind == TokenKind::Slash) {
        let op = if ts[p].kind == TokenKind::Star {
            BinOp::Mul
        } else {
            BinOp::Div
        };
        match sp_unary(s, ts, p + 1) {
            Ok((rt, q)) => sp_term_rest(
                s,
                ts,
                Expr::Bin(op, Box::new(left), Box::new(rt)),
                adv(p + 1, q, ts.len() as int),
            ),
            Err(x) => Err(x),
        }
    } else {
        Ok((left, p))
    }
}

pub open spec fn sp_unary(s: Seq<u8>, ts: Seq<Token>, p: int) -> Result<(Expr, int), ParseError>
    decreases ts.len() - p, 2int
{
    if p < 0 || p >= ts.len() {
        Err(ParseError::UnexpectedEnd)
    } else if ts[p].kind == TokenKind::Minus {
        match sp_power(s, ts, p + 1) {
            Ok((e, q)) => Ok((Expr::Neg(Box::new(e)), q)),
            Err(x) => Err(x),
        }
    } else {
        sp_power(s, ts, p)
    }
}

pub open spec fn sp_power(s: Seq<u8>, ts: Seq<Token>, p: int) -> Result<(Expr, int), ParseError>
    decreases ts.len() - p, 1int
{
    if p < 0 || p >= ts.len() {
        Err(ParseError::UnexpectedEnd)
    } else {
        match sp_atom(s, ts, p) {
            Ok((a, q)) => {
                if 0 <= q < ts.len() && ts[q].kind == TokenKind::Caret {
                    match sp_unary(s, ts, adv(p, q + 1, ts.len() as int)) {
                        Ok((b, q2)) => Ok((Expr::Bin(BinOp::Pow, Box::new(a), Box::new(b)), q2)),
                        Err(x) => Err(x),
                    }
                } else {
                    Ok((a, q))
                }
            },
            Err(x) => Err(x),
        }
    }
}

pub open spec fn sp_atom(s: Seq<u8>, ts: Seq<Token>, p: int) -> Result<(Expr, int), ParseError>
    decreases ts.len() - p, 0int
{
    if p < 0 || p >= ts.len() {
        Err(ParseError::UnexpectedEnd)
    } else {
        let t0 = ts[p];
        match t0.kind {
            TokenKind::Number => Ok((Expr::Num { start: t0.start, end: t0.end }, p + 1)),
            TokenKind::Ident => {
                if t0.end - t0.start == 1 && s[t0.start as int] == 0x69 {
                    Ok((Expr::ImUnit, p + 1))  // i
                } else if t0.end - t0.start == 1 && s[t0.start as int] == 0x74 {
                    Ok((Expr::Param, p + 1))  // t
                } else {
                    match spec_registry(s, t0.start as int, t0.end as int) {
                        Some(c) => {
                            if p + 1 < ts.len() && ts[p + 1].kind == TokenKind::LParen {
                                match sp_args(s, ts, adv(p, p + 2, ts.len() as int)) {
                                    Ok((args, q)) => sp_finish_call(ts, t0, c, args, q),
                                    Err(x) => Err(x),
                                }
                            } else if p + 1 < ts.len() {
                                Err(ParseError::UnexpectedToken { pos: ts[p + 1].start })
                            } else {
                                Err(ParseError::UnexpectedEnd)
                            }
                        },
                        None => Err(ParseError::UnknownIdentifier { start: t0.start, end: t0.end }),
                    }
                }
            },
            TokenKind::LParen => {
                match sp_expr(s, ts, p + 1) {
                    Ok((inner, q)) => {
                        if 0 <= q < ts.len() && ts[q].kind == TokenKind::RParen {
                            Ok((inner, q + 1))
                        } else if 0 <= q < ts.len() {
                            Err(ParseError::UnexpectedToken { pos: ts[q].start })
                        } else {
                            Err(ParseError::UnexpectedEnd)
                        }
                    },
                    Err(x) => Err(x),
                }
            },
            TokenKind::End => Err(ParseError::UnexpectedEnd),
            _ => Err(ParseError::UnexpectedToken { pos: t0.start }),
        }
    }
}

/// Close a function call: expect `)` at `q`, check the arity, and build the
/// node (`pow` becomes the power operator).
pub open spec fn sp_finish_call(ts: Seq<Token>, name: Token, c: Callable, args: Seq<Expr>, q: int) -> Result<(Expr, int), ParseError> {
    if 0 <= q < ts.len() && ts[q].kind == TokenKind::RParen {
        if args.len() == callable_arity(c) {
            match c {
                Callable::Fn1(f) => Ok((Expr::Call(f, Box::new(args[0])), q + 1)),
                Callable::Pow2 => Ok((Expr::Bin(BinOp::Pow, Box::new(args[0]), Box::new(args[1])), q + 1)),
            }
        } else {
            Err(ParseError::ArityMismatch {
                start: name.start,
                end: name.end,
                expected: callable_arity(c) as usize,
                got: args.len() as usize,
            })
        }
    } else if 0 <= q < ts.len() {
        Err(ParseError::UnexpectedToken { pos: ts[q].start })
    } else {
        Err(ParseError::UnexpectedEnd)
    }
}

pub open spec fn sp_args(s: Seq<u8>, ts: Seq<Token>, p: int) -> Result<(Seq<Expr>, int), ParseError>
    decreases ts.len() - p, 5int
{
    if p < 0 || p >= ts.len() {
        Err(ParseError::UnexpectedEnd)
    } else {
        match sp_expr(s, ts, p) {
            Ok((e, q)) => sp_args_rest(s, ts, seq![e], adv(p, q, ts.len() as int)),
            Err(x) => Err(x),
        }
    }
}

pub open spec fn sp_args_rest(s: Seq<u8>, ts: Seq<Token>, acc: Seq<Expr>, p: int) -> Result<(Seq<Expr>, int), ParseError>
    decreases ts.len() - p, 6int
{
    if 0 <= p < ts.len() && ts[p].kind == TokenKind::Comma {
        match sp_expr(s, ts, p + 1) {
            Ok((e, q)) => sp_args_rest(s, ts, acc.push(e), adv(p + 1, q, ts.len() as int)),
            Err(x) => Err(x),
        }
    } else {
        Ok((acc, p))
    }
}

/// The parse of a whole token list: one expression, then nothing but the
/// `End` sentinel.
pub open spec fn sp_parse(s: Seq<u8>, ts: Seq<Token>) -> Result<Expr, ParseError> {
    match sp_expr(s, ts, 0) {
        Ok((e, q)) => {
            if 0 <= q < ts.len() && ts[q].kind != TokenKind::End {
                Err(ParseError::UnexpectedToken { pos: ts[q].start })
            } else {
                Ok(e)
            }
        },
        Err(x) => Err(x),
    }
}

/// Executable registry lookup, equal to [`spec_registry`] on the span.
fn reg_lookup(s: &[u8], st: usize, en: usize) -> (r: Option<Callable>)
    requires
        st <= en <= s@.len(),
    ensures
        r == spec_registry(s@, st as int, en as int),
{
    let n = en - st;
    if n == 3 && s[st] == 0x65 && s[st + 1] == 0x78 && s[st + 2] == 0x70 {
        Some(Callable::Fn1(Func::Exp))
    } else if n == 3 && s[st] == 0x73 && s[st + 1] == 0x69 && s[st + 2] == 0x6E {
        Some(Callable::Fn1(Func::Sin))
    } else if n == 3 && s[st] == 0x63 && s[st + 1] == 0x6F && s[st + 2] == 0x73 {
        Some(Callable::Fn1(Func::Cos))
    } else if n == 4 && s[st] == 0x73 && s[st + 1] == 0x71 && s[st + 2] == 0x72 && s[st + 3] == 0x74 {
        Some(Callable::Fn1(Func::Sqrt))
    } else if n == 3 && s[st] == 0x61 && s[st + 1] == 0x62 && s[st + 2] == 0x73 {
        Some(Callable::Fn1(Func::Abs))
    } else if n == 4 && s[st] == 0x63 && s[st + 1] == 0x6F && s[st + 2] == 0x6E && s[st + 3] == 0x6A {
        Some(Callable::Fn1(Func::Conj))
    } else if n == 2 && s[st] == 0x72 && s[st + 1] == 0x65 {
        Some(Callable::Fn1(Func::Re))
    } else if n == 2 && s[st] == 0x69 && s[st + 1] == 0x6D {
        Some(Callable::Fn1(Func::Im))
    } else if n == 3 && s[st] == 0x70 && s[st + 1] == 0x6F && s[st + 2] == 0x77 {
        Some(Callable::Pow2)
    } else {
        None
    }
}

fn p_expr(s: &[u8], ts: &[Token], p: usize) -> (r: Result<(Expr, usize), ParseError>)
    requires
        tokens_wf(ts@, s@.len() as int),
        p <= ts@.len(),
    ensures
        match r {
            Ok((e, q)) => {
                &&& sp_expr(s@, ts@, p as int) == Ok::<(Expr, int), ParseError>((e, q as int))
                &&& p < q <= ts@.len()
                &&& expr_wf(e, s@.len() as int)
            },
            Err(x) => sp_expr(s@, ts@, p as int) == Err::<(Expr, int), ParseError>(x),
        },
    decreases ts@.len() - p, 4int
{
    if p >= ts.len() {
        Err(ParseError::UnexpectedEnd)
    } else {
        match p_term(s, ts, p) {
            Ok((e, q)) => {
                proof {
                    assert(adv(p as int, q as int, ts@.len() as int) == q as int);
                }
                p_expr_rest(s, ts, e, q)
            },
            Err(x) => Err(x),
        }
    }
}

fn p_expr_rest(s: &[u8], ts: &[Token], left: Expr, p: usize) -> (r: Result<(Expr, usize), ParseError>)
    requires
        tokens_wf(ts@, s@.len() as int),
        p <= ts@.len(),
        expr_wf(left, s@.len() as int),
    ensures
        match r {
            Ok((e, q)) => {
                &&& sp_expr_rest(s@, ts@, left, p as int) == Ok::<(Expr, int), ParseError>((e, q as int))
                &&& p <= q <= ts@.len()
                &&& expr_wf(e, s@.len() as int)
            },
            Err(x) => sp_expr_rest(s@, ts@, left, p as int) == Err::<(Expr, int), ParseError>(x),
        },
    decreases ts@.len() - p, 6int
{
    if p < ts.len() && (ts[p].kind == TokenKind::Plus || ts[p].kind == TokenKind::Minus) {
        let op = if ts[p].kind == TokenKind::Plus {
            BinOp::Add
        } else {
            BinOp::Sub
        };
        match p_term(s, ts, p + 1) {
            Ok((rt, q)) => {
                proof {
                    assert(adv(p as int + 1, q as int, ts@.len() as int) == q as int);
                }
                p_expr_rest(s, ts, Expr::Bin(op, Box::new(left), Box::new(rt)), q)
            },
            Err(x) => Err(x),
        }
    } else {
        Ok((left, p))
    }
}

fn p_term(s: &[u8], ts: &[Token], p: usize) -> (r: Result<(Expr, usize), ParseError>)
    requires
        tokens_wf(ts@, s@.len() as int),
        p <= ts@.len(),
    ensures
        match r {
            Ok((e, q)) => {
                &&& sp_term(s@, ts@, p as int) == Ok::<(Expr, int), ParseError>((e, q as int))
                &&& p < q <= ts@.len()
                &&& expr_wf(e, s@.len() as int)
            },
            Err(x) => sp_term(s@, ts@, p as int) == Err::<(Expr, int), ParseError>(x),
        },
    decreases ts@.len() - p, 3int
{
    if p >= ts.len() {
        Err(ParseError::UnexpectedEnd)
    } else {
        match p_unary(s, ts, p) {
            Ok((e, q)) => {
                proof {
                    assert(adv(p as int, q as int, ts@.len() as int) == q as int);
                }
                p_term_rest(s, ts, e, q)
            },
            Err(x) => Err(x),
        }
    }
}

fn p_term_rest(s: &[u8], ts: &[Token], left: Expr, p: usize) -> (r: Result<(Expr, usize), ParseError>)
    requires
        tokens_wf(ts@, s@.len() as int),
        p <= ts@.len(),
        expr_wf(left, s@.len() as int),
    ensures
        match r {
            Ok((e, q)) => {
                &&& sp_term_rest(s@, ts@, left, p as int) == Ok::<(Expr, int), ParseError>((e, q as int))
                &&& p <= q <= ts@.len()
                &&& expr_wf(e, s@.len() as int)
            },
            Err(x) => sp_term_rest(s@, ts@, left, p as int) == Err::<(Expr, int), ParseError>(x),
        },
    decreases ts@.len() - p, 6int
{
    if p < ts.len() && (ts[p].kind == TokenKind::Star || ts[p].kind == TokenKind::Slash) {
        let op = if ts[p].kind == TokenKind::Star {
            BinOp::Mul
        } else {
            BinOp::Div
        };
        match p_unary(s, ts, p + 1) {
            Ok((rt, q)) => {
                proof {
                    assert(adv(p as int + 1, q as int, ts@.len() as int) == q as int);
                }
                p_term_rest(s, ts, Expr::Bin(op, Box::new(left), Box::new(rt)), q)
            },
            Err(x) => Err(x),
        }
    } else {
        Ok((left, p))
    }
}

fn p_unary(s: &[u8], ts: &[Token], p: usize) -> (r: Result<(Expr, usize), ParseError>)
    requires
        tokens_wf(ts@, s@.len() as int),
        p <= ts@.len(),
    ensures
        match r {
            Ok((e, q)) => {
                &&& sp_unary(s@, ts@, p as int) == Ok::<(Expr, int), ParseError>((e, q as int))
                &&& p < q <= ts@.len()
                &&& expr_wf(e, s@.len() as int)
            },
            Err(x) => sp_unary(s@, ts@, p as int) == Err::<(Expr, int), ParseError>(x),
        },
    decreases ts@.len() - p, 2int
{
    if p >= ts.len() {
        Err(ParseError::UnexpectedEnd)
    } else if ts[p].kind == TokenKind::Minus {
        match p_power(s, ts, p + 1) {
            Ok((e, q)) => Ok((Expr::Neg(Box::new(e)), q)),
            Err(x) => Err(x),
        }
    } else {
        p_power(s, ts, p)
    }
}

fn p_power(s: &[u8], ts: &[Token], p: usize) -> (r: Result<(Expr, usize), ParseError>)
    requires
        tokens_wf(ts@, s@.len() as int),
        p <= ts@.len(),
    ensures
        match r {
            Ok((e, q)) => {
                &&& sp_power(s@, ts@, p as int) == Ok::<(Expr, int), ParseError>((e, q as int))
                &&& p < q <= ts@.len()
                &&& expr_wf(e, s@.len() as int)
            },
            Err(x) => sp_power(s@, ts@, p as int) == Err::<(Expr, int), ParseError>(x),
        },
    decreases ts@.len() - p, 1int
{
    if p >= ts.len() {
        Err(ParseError::UnexpectedEnd)
    } else {
        match p_atom(s, ts, p) {
            Ok((a, q)) => {
                if q < ts.len() && ts[q].kind == TokenKind::Caret {
                    proof {
                        assert(adv(p as int, q as int + 1, ts@.len() as int) == q as int + 1);
                    }
                    match p_unary(s, ts, q + 1) {
                        Ok((b, q2)) => Ok((Expr::Bin(BinOp::Pow, Box::new(a), Box::new(b)), q2)),
                        Err(x) => Err(x),
                    }
                } else {
                    Ok((a, q))
                }
            },
            Err(x) => Err(x),
        }
    }
}

fn p_atom(s: &[u8], ts: &[Token], p: usize) -> (r: Result<(Expr, usize), ParseError>)
    requires
        tokens_wf(ts@, s@.len() as int),
        p <= ts@.len(),
    ensures
        match r {
            Ok((e, q)) => {
                &&& sp_atom(s@, ts@, p as int) == Ok::<(Expr, int), ParseError>((e, q as int))
                &&& p < q <= ts@.len()
                &&& expr_wf(e, s@.len() as int)
            },
            Err(x) => sp_atom(s@, ts@, p as int) == Err::<(Expr, int), ParseError>(x),
        },
    decreases ts@.len() - p, 0int
{
    if p >= ts.len() {
        Err(ParseError::UnexpectedEnd)
    } else {
        let t0 = ts[p];
        proof {
            assert(ts@[p as int].start <= ts@[p as int].end <= s@.len());
        }
        match t0.kind {
            TokenKind::Number => Ok((Expr::Num { start: t0.start, end: t0.end }, p + 1)),
            TokenKind::Ident => {
                if t0.end - t0.start == 1 && s[t0.start] == 0x69 {
                    Ok((Expr::ImUnit, p + 1))
                } else if t0.end - t0.start == 1 && s[t0.start] == 0x74 {
                    Ok((Expr::Param, p + 1))
                } else {
                    match reg_lookup(s, t0.start, t0.end) {
                        Some(c) => {
                            if p + 1 < ts.len() && ts[p + 1].kind == TokenKind::LParen {
                                proof {
                                    assert(adv(p as int, p as int + 2, ts@.len() as int) == p as int + 2);
                                }
                                match p_args(s, ts, p + 2) {
                                    Ok((args, q)) => p_finish_call(s, ts, t0, c, args, q),
                                    Err(x) => Err(x),
                                }
                            } else if p + 1 < ts.len() {
                                Err(ParseError::UnexpectedToken { pos: ts[p + 1].start })
                            } else {
                                Err(ParseError::UnexpectedEnd)
                            }
                        },
                        None => Err(ParseError::UnknownIdentifier { start: t0.start, end: t0.end }),
                    }
                }
            },
            TokenKind::LParen => {
                match p_expr(s, ts, p + 1) {
                    Ok((inner, q)) => {
                        if q < ts.len() && ts[q].kind == TokenKind::RParen {
                            Ok((inner, q + 1))
                        } else if q < ts.len() {
                            Err(ParseError::UnexpectedToken { pos: ts[q].start })
                        } else {
                            Err(ParseError::UnexpectedEnd)
                        }
                    },
                    Err(x) => Err(x),
                }
            },
            TokenKind::End => Err(ParseError::UnexpectedEnd),
            _ => Err(ParseError::UnexpectedToken { pos: t0.start }),
        }
    }
}

fn p_finish_call(s: &[u8], ts: &[Token], name: Token, c: Callable, args: Vec<Expr>, q: usize) -> (r: Result<(Expr, usize), ParseError>)
    requires
        q <= ts@.len(),
        exprs_wf(args@, s@.len() as int),
        args@.len() >= 1,
    ensures
        match r {
            Ok((e, q2)) => {
                &&& sp_finish_call(ts@, name, c, args@, q as int) == Ok::<(Expr, int), ParseError>((e, q2 as int))
                &&& q < q2 <= ts@.len()
                &&& expr_wf(e, s@.len() as int)
            },
            Err(x) => sp_finish_call(ts@, name, c, args@, q as int) == Err::<(Expr, int), ParseError>(x),
        },
{
    if q < ts.len() && ts[q].kind == TokenKind::RParen {
        let expected: usize = match c {
            Callable::Fn1(_) => 1,
            Callable::Pow2 => 2,
        };
        if args.len() == expected {
            let mut rest = args;
            let first = rest.remove(0);
            match c {
                Callable::Fn1(f) => Ok((Expr::Call(f, Box::new(first)), q + 1)),
                Callable::Pow2 => {
                    let second = rest.remove(0);
                    Ok((Expr::Bin(BinOp::Pow, Box::new(first), Box::new(second)), q + 1))
                },
            }
        } else {
            Err(ParseError::ArityMismatch {
                start: name.start,
                end: name.end,
                expected,
                got: args.len(),
            })
        }
    } else if q < ts.len() {
        Err(ParseError::UnexpectedToken { pos: ts[q].start })
    } else {
        Err(ParseError::UnexpectedEnd)
    }
}

fn p_args(s: &[u8], ts: &[Token], p: usize) -> (r: Result<(Vec<Expr>, usize), ParseError>)
    requires
        tokens_wf(ts@, s@.len() as int),
        p <= ts@.len(),
    ensures
        match r {
            Ok((v, q)) => {
                &&& sp_args(s@, ts@, p as int) == Ok::<(Seq<Expr>, int), ParseError>((v@, q as int))
                &&& p < q <= ts@.len()
                &&& v@.len() >= 1
                &&& exprs_wf(v@, s@.len() as int)
            },
            Err(x) => sp_args(s@, ts@, p as int) == Err::<(Seq<Expr>, int), ParseError>(x),
        },
    decreases ts@.len() - p, 5int
{
    if p >= ts.len() {
        Err(ParseError::UnexpectedEnd)
    } else {
        match p_expr(s, ts, p) {
            Ok((e, q)) => {
                let mut acc: Vec<Expr> = Vec::new();
                acc.push(e);
                proof {
                    assert(acc@ =~= seq![e]);
                    assert(adv(p as int, q as int, ts@.len() as int) == q as int);
                }
                p_args_rest(s, ts, acc, q)
            },
            Err(x) => Err(x),
        }
    }
}

fn p_args_rest(s: &[u8], ts: &[Token], acc: Vec<Expr>, p: usize) -> (r: Result<(Vec<Expr>, usize), ParseError>)
    requires
        tokens_wf(ts@, s@.len() as int),
        p <= ts@.len(),
        exprs_wf(acc@, s@.len() as int),
        acc@.len() >= 1,
    ensures
        match r {
            Ok((v, q)) => {
                &&& sp_args_rest(s@, ts@, acc@, p as int) == Ok::<(Seq<Expr>, int), ParseError>((v@, q as int))
                &&& p <= q <= ts@.len()
                &&& v@.len() >= acc@.len()
                &&& exprs_wf(v@, s@.len() as int)
            },
            Err(x) => sp_args_rest(s@, ts@, acc@, p as int) == Err::<(Seq<Expr>, int), ParseError>(x),
        },
    decreases ts@.len() - p, 6int
{
    if p < ts.len() && ts[p].kind == TokenKind::Comma {
        match p_expr(s, ts, p + 1) {
            Ok((e, q)) => {
                let ghost acc0 = acc@;
                let mut acc2 = acc;
                acc2.push(e);
                proof {
                    assert(acc2@ =~= acc0.push(e));
                    assert(adv(p as int + 1, q as int, ts@.len() as int) == q as int);
                }
                p_args_rest(s, ts, acc2, q)
            },
            Err(x) => Err(x),
        }
    } else {
        Ok((acc, p))
    }
}

/// Parse a token list against the input it was scanned from.
///
/// The result is exactly [`sp_parse`]; on success the tree's literal spans
/// all lie inside the input.
pub fn parse(s: &[u8], ts: &[Token]) -> (r: Result<Expr, ParseError>)
    requires
        tokens_wf(ts@, s@.len() as int),
    ensures
        match r {
            Ok(e) => {
                &&& sp_parse(s@, ts@) == Ok::<Expr, ParseError>(e)
                &&& expr_wf(e, s@.len() as int)
            },
            Err(x) => sp_parse(s@, ts@) == Err::<Expr, ParseError>(x),
        },
{
    match p_expr(s, ts, 0) {
        Ok((e, q)) => {
            if q < ts.len() && !(ts[q].kind == TokenKind::End) {
                Err(ParseError::UnexpectedToken { pos: ts[q].start })
            } else {
                Ok(e)
            }
        },
        Err(x) => Err(x),
    }
}

} // verus!
