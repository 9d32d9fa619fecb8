//! Evaluator: a verified stack machine over IEEE-754 bit patterns.
//!
//! The machine executes a compiled [`Plan`] at one parameter value and
//! returns exactly the value of the specification machine [`spec_eval`]:
//! stack discipline, the division-by-zero test, the finiteness policy,
//! negation, conjugation and the component projections are all pinned
//! bit-exactly. The raw arithmetic (add, multiply, the transcendental
//! functions, literal conversion) is delegated to a [`NumKernel`] supplied
//! by the embedder; each kernel method is pinned only to its own abstract
//! specification member, so the library assumes nothing of the arithmetic
//! beyond being a function of its arguments — which is true of the IEEE-754
//! operations the methods stand for — and still checks every result it uses.

use vstd::prelude::*;
use vstd::slice::slice_subrange;
use crate::ast::{Func, BinOp};
use crate::plan::{Instr, Plan, plan_wf, instr_wf, sym_run, sym_step, lemma_sym_run_app, lemma_sym_run_single};

verus! {

/// A complex number as the bit patterns of its two IEEE-754 doubles.
#[derive(Clone, Copy, Debug, PartialEq, Eq, Structural)]
pub struct CBits {
    pub re: u64,
    pub im: u64,
}

/// Bit pattern of the double `1.0`.
pub const F64_ONE_BITS: u64 = 0x3FF0000000000000;

/// Sign bit of a double.
pub const F64_SIGN_BIT: u64 = 0x8000000000000000;

/// The bits encode `+0.0` or `-0.0`: the only doubles of magnitude zero.
pub open spec fn spec_f64_is_zero(b: u64) -> bool {
    b == 0 || b == F64_SIGN_BIT
}

/// The exponent field is not all ones: the double is neither an infinity nor
/// a NaN.
pub open spec fn spec_f64_is_finite(b: u64) -> bool {
    (b >> 52) & 0x7FF != 0x7FF
}

/// IEEE-754 negation: flip the sign bit.
pub open spec fn spec_f64_neg(b: u64) -> u64 {
    b ^ F64_SIGN_BIT
}

/// Both components are zero: the complex magnitude is exactly zero.
pub open spec fn spec_c_is_zero(c: CBits) -> bool {
    spec_f64_is_zero(c.re) && spec_f64_is_zero(c.im)
}

/// Both components are finite.
pub open spec fn spec_c_is_finite(c: CBits) -> bool {
    spec_f64_is_finite(c.re) && spec_f64_is_finite(c.im)
}

/// Complex negation: both components change sign.
pub open spec fn spec_c_neg(c: CBits) -> CBits {
    CBits { re: spec_f64_neg(c.re), im: spec_f64_neg(c.im) }
}

/// Complex conjugate: the imaginary part changes sign.
pub open spec fn spec_c_conj(c: CBits) -> CBits {
    CBits { re: c.re, im: spec_f64_neg(c.im) }
}

/// Real part as a real-valued complex number.
pub open spec fn spec_c_re(c: CBits) -> CBits {
    CBits { re: c.re, im: 0 }
}

/// Imaginary part as a real-valued complex number.
pub open spec fn spec_c_im(c: CBits) -> CBits {
    CBits { re: c.im, im: 0 }
}

/// Executable zero test, equal to [`spec_c_is_zero`].
pub fn c_is_zero(c: CBits) -> (r: bool)
    ensures
        r == spec_c_is_zero(c),
{
    (c.re == 0 || c.re == F64_SIGN_BIT) && (c.im == 0 || c.im == F64_SIGN_BIT)
}

/// Executable finiteness test, equal to [`spec_f64_is_finite`].
pub fn f64_is_finite(b: u64) -> (r: bool)
    ensures
        r == spec_f64_is_finite(b),
{
    (b >> 52) & 0x7FF != 0x7FF
}

/// Executable finiteness test, equal to [`spec_c_is_finite`].
pub fn c_is_finite(c: CBits) -> (r: bool)
    ensures
        r == spec_c_is_finite(c),
{
    f64_is_finite(c.re) && f64_is_finite(c.im)
}

/// Executable negation, equal to [`spec_c_neg`].
pub fn c_neg(c: CBits) -> (r: CBits)
    ensures
        r == spec_c_neg(c),
{
    CBits { re: c.re ^ F64_SIGN_BIT, im: c.im ^ F64_SIGN_BIT }
}

/// Executable conjugation, equal to [`spec_c_conj`].
pub fn c_conj(c: CBits) -> (r: CBits)
    ensures
        r == spec_c_conj(c),
{
    CBits { re: c.re, im: c.im ^ F64_SIGN_BIT }
}

/// Executable real-part projection, equal to [`spec_c_re`].
pub fn c_re(c: CBits) -> (r: CBits)
    ensures
        r == spec_c_re(c),
{
    CBits { re: c.re, im: 0 }
}

/// Executable imaginary-part projection, equal to [`spec_c_im`].
pub fn c_im(c: CBits) -> (r: CBits)
    ensures
        r == spec_c_im(c),
{
    CBits { re: c.im, im: 0 }
}

/// The raw IEEE-754 arithmetic that only the embedder can supply, on bit
/// patterns. Each executable method is pinned to an abstract specification
/// member of the same trait and to nothing else: the library assumes only
/// that each operation is a function of its arguments — true of the
/// IEEE-754 operations the methods stand for — and the machine still checks
/// every result it uses. An implementation outside the verified world
/// carries no proof obligation beyond respecting the stated preconditions
/// and returning the same bits for the same arguments.
pub trait NumKernel {
    /// What complex addition returns.
    open spec fn add_spec(&self, a: CBits, b: CBits) -> CBits {
        vstd::pervasive::arbitrary()
    }

    /// Complex addition.
    fn add(&self, a: CBits, b: CBits) -> (r: CBits)
        ensures
            r == self.add_spec(a, b),
    ;

    /// What complex subtraction returns.
    open spec fn sub_spec(&self, a: CBits, b: CBits) -> CBits {
        vstd::pervasive::arbitrary()
    }

    /// Complex subtraction.
    fn sub(&self, a: CBits, b: CBits) -> (r: CBits)
        ensures
            r == self.sub_spec(a, b),
    ;

    /// What complex multiplication returns.
    open spec fn mul_spec(&self, a: CBits, b: CBits) -> CBits {
        vstd::pervasive::arbitrary()
    }

    /// Complex multiplication.
    fn mul(&self, a: CBits, b: CBits) -> (r: CBits)
        ensures
            r == self.mul_spec(a, b),
    ;

    /// What complex division returns.
    open spec fn div_spec(&self, a: CBits, b: CBits) -> CBits {
        vstd::pervasive::arbitrary()
    }

    /// Complex division. Never called with a divisor of magnitude zero.
    fn div(&self, a: CBits, b: CBits) -> (r: CBits)
        requires
            !spec_c_is_zero(b),
        ensures
            r == self.div_spec(a, b),
    ;

    /// What the principal-branch complex power returns.
    open spec fn pow_spec(&self, a: CBits, b: CBits) -> CBits {
        vstd::pervasive::arbitrary()
    }

    /// Principal-branch complex power `a ^ b` (`exp(b * ln a)`).
    fn pow(&self, a: CBits, b: CBits) -> (r: CBits)
        ensures
            r == self.pow_spec(a, b),
    ;

    /// What a registry function returns.
    open spec fn apply_spec(&self, f: Func, a: CBits) -> CBits {
        vstd::pervasive::arbitrary()
    }

    /// A registry function of one argument, extended to complex values:
    /// `exp`, `sin`, `cos`, `sqrt` (principal branch) or `abs` (magnitude).
    /// The machine computes `conj`, `re` and `im` itself.
    fn apply(&self, f: Func, a: CBits) -> (r: CBits)
        ensures
            r == self.apply_spec(f, a),
    ;

    /// What the bits of a decimal literal's double are.
    open spec fn parse_num_spec(&self, lit: Seq<u8>) -> u64 {
        vstd::pervasive::arbitrary()
    }

    /// Bits of the double a decimal literal denotes. Only called on literals
    /// the tokenizer's number rule accepted.
    fn parse_num(&self, lit: &[u8]) -> (r: u64)
        ensures
            r == self.parse_num_spec(lit@),
    ;

    /// What the interior sample point's bits are.
    open spec fn lerp_spec(&self, t_min: u64, t_max: u64, steps: usize, i: usize) -> u64 {
        vstd::pervasive::arbitrary()
    }

    /// Bits of the interior sample point
    /// `t_min + i * (t_max - t_min) / (steps - 1)`.
    fn lerp(&self, t_min: u64, t_max: u64, steps: usize, i: usize) -> (r: u64)
        requires
            2 <= steps,
            0 < i < steps - 1,
        ensures
            r == self.lerp_spec(t_min, t_max, steps, i),
    ;

    /// What narrowing a double to a single yields.
    open spec fn narrow_spec(&self, bits: u64) -> u32 {
        vstd::pervasive::arbitrary()
    }

    /// Bits of the double narrowed to a single (the `as f32` conversion).
    fn narrow(&self, bits: u64) -> (r: u32)
        ensures
            r == self.narrow_spec(bits),
    ;
}

/// Why the evaluation of one sample failed.
#[derive(Clone, Copy, Debug, PartialEq, Eq, Structural)]
pub enum EvalErrorKind {
    /// A division whose divisor had magnitude exactly zero.
    DivisionByZero,
    /// An operation on finite inputs produced a non-finite component
    /// (overflow), or a literal denoted no finite double.
    NonFinite,
}

/// Result of evaluating a plan at one parameter value.
#[derive(Clone, Copy, Debug, PartialEq, Eq, Structural)]
pub enum EvalOutcome {
    Value(CBits),
    Failed(EvalErrorKind),
}

/// The code holds a division instruction somewhere.
pub open spec fn has_div(code: Seq<Instr>) -> bool {
    exists|k: int| 0 <= k < code.len() && #[trigger] code[k] == Instr::Bin(BinOp::Div)
}

/// One step of the specification machine: exactly what the executable
/// machine does with the instruction, over the kernel's specification
/// members. The underflow branches are never reached by code from
/// `compile`.
pub open spec fn spec_exec_step<K: NumKernel>(
    k: &K,
    input: Seq<u8>,
    t_bits: u64,
    st: Seq<CBits>,
    ins: Instr,
) -> Result<Seq<CBits>, EvalErrorKind> {
    match ins {
        Instr::PushNum { start, end } => {
            let bits = k.parse_num_spec(input.subrange(start as int, end as int));
            if !spec_f64_is_finite(bits) {
                Err(EvalErrorKind::NonFinite)
            } else {
                Ok(st.push(CBits { re: bits, im: 0 }))
            }
        },
        Instr::PushI => Ok(st.push(CBits { re: 0, im: F64_ONE_BITS })),
        Instr::PushT => Ok(st.push(CBits { re: t_bits, im: 0 })),
        Instr::Neg => {
            if st.len() >= 1 {
                Ok(st.drop_last().push(spec_c_neg(st.last())))
            } else {
                Err(EvalErrorKind::NonFinite)
            }
        },
        Instr::Call(f) => {
            if st.len() >= 1 {
                let a = st.last();
                let rest = st.drop_last();
                match f {
                    Func::Conj => Ok(rest.push(spec_c_conj(a))),
                    Func::Re => Ok(rest.push(spec_c_re(a))),
                    Func::Im => Ok(rest.push(spec_c_im(a))),
                    _ => {
                        let v = k.apply_spec(f, a);
                        if spec_c_is_finite(a) && !spec_c_is_finite(v) {
                            Err(EvalErrorKind::NonFinite)
                        } else {
                            Ok(rest.push(v))
                        }
                    },
                }
            } else {
                Err(EvalErrorKind::NonFinite)
            }
        },
        Instr::Bin(op) => {
            if st.len() >= 2 {
                let b = st.last();
                let a = st[st.len() - 2];
                let rest = st.drop_last().drop_last();
                if op == BinOp::Div && spec_c_is_zero(b) {
                    Err(EvalErrorKind::DivisionByZero)
                } else {
                    let v = match op {
                        BinOp::Add => k.add_spec(a, b),
                        BinOp::Sub => k.sub_spec(a, b),
                        BinOp::Mul => k.mul_spec(a, b),
                        BinOp::Div => k.div_spec(a, b),
                        BinOp::Pow => k.pow_spec(a, b),
                    };
                    if spec_c_is_finite(a) && spec_c_is_finite(b) && !spec_c_is_finite(v) {
                        Err(EvalErrorKind::NonFinite)
                    } else {
                        Ok(rest.push(v))
                    }
                }
            } else {
                Err(EvalErrorKind::NonFinite)
            }
        },
    }
}

/// Run the specification machine over the code, left to right; the first
/// error stops the run.
pub open spec fn spec_exec_plan<K: NumKernel>(
    k: &K,
    input: Seq<u8>,
    t_bits: u64,
    code: Seq<Instr>,
    st: Seq<CBits>,
) -> Result<Seq<CBits>, EvalErrorKind>
    decreases code.len()
{
    if code.len() == 0 {
        Ok(st)
    } else {
        match spec_exec_step(k, input, t_bits, st, code[0]) {
            Ok(st2) => spec_exec_plan(k, input, t_bits, code.subrange(1, code.len() as int), st2),
            Err(e) => Err(e),
        }
    }
}

/// What evaluating the plan at parameter bits `t_bits` returns: the single
/// remaining value, or the first per-sample error.
pub open spec fn spec_eval<K: NumKernel>(k: &K, input: Seq<u8>, code: Seq<Instr>, t_bits: u64) -> EvalOutcome {
    match spec_exec_plan(k, input, t_bits, code, Seq::empty()) {
        Ok(st) => EvalOutcome::Value(st.last()),
        Err(e) => EvalOutcome::Failed(e),
    }
}

/// Splitting the code splits the specification run.
pub proof fn lemma_exec_app<K: NumKernel>(
    k: &K,
    input: Seq<u8>,
    t_bits: u64,
    c1: Seq<Instr>,
    c2: Seq<Instr>,
    st: Seq<CBits>,
)
    ensures
        spec_exec_plan(k, input, t_bits, c1 + c2, st) == (match spec_exec_plan(k, input, t_bits, c1, st) {
            Ok(m) => spec_exec_plan(k, input, t_bits, c2, m),
            Err(e) => Err::<Seq<CBits>, EvalErrorKind>(e),
        }),
    decreases c1.len()
{
    if c1.len() == 0 {
        assert(c1 + c2 =~= c2);
    } else {
        let whole = c1 + c2;
        assert(whole[0] == c1[0]);
        match spec_exec_step(k, input, t_bits, st, c1[0]) {
            Ok(st2) => {
                assert(whole.subrange(1, whole.len() as int) =~= c1.subrange(
                    1,
                    c1.len() as int,
                ) + c2);
                lemma_exec_app(k, input, t_bits, c1.subrange(1, c1.len() as int), c2, st2);
            },
            Err(_) => {},
        }
    }
}

pub proof fn lemma_exec_single<K: NumKernel>(
    k: &K,
    input: Seq<u8>,
    t_bits: u64,
    ins: Instr,
    st: Seq<CBits>,
)
    ensures
        spec_exec_plan(k, input, t_bits, seq![ins], st) == spec_exec_step(k, input, t_bits, st, ins),
{
    assert(seq![ins].subrange(1, 1) =~= Seq::<Instr>::empty());
    if let Ok(st2) = spec_exec_step(k, input, t_bits, st, ins) {
        assert(spec_exec_plan(k, input, t_bits, seq![ins].subrange(1, 1), st2) == Ok::<
            Seq<CBits>,
            EvalErrorKind,
        >(st2));
    }
}

/// Evaluate a compiled plan at the parameter value `t` (as double bits).
///
/// The result is exactly [`spec_eval`] of the kernel, the input, the code
/// and the bits. The plan must come from `compile` (its symbolic run yields
/// one tree), so the machine never underflows and ends with exactly one
/// value; only a plan that holds a division can fail with `DivisionByZero`.
#[verifier::rlimit(100)]
pub fn eval_plan<K: NumKernel>(k: &K, input: &[u8], plan: &Plan, t_bits: u64) -> (r: EvalOutcome)
    requires
        plan_wf(plan.code@, input@.len() as int),
        sym_run(plan.code@, Seq::empty()) matches Some(fin) && fin.len() == 1,
    ensures
        r == spec_eval(k, input@, plan.code@, t_bits),
        r == EvalOutcome::Failed(EvalErrorKind::DivisionByZero) ==> has_div(plan.code@),
{
    let ghost code = plan.code@;
    let n = plan.code.len();
    let mut stack: Vec<CBits> = Vec::new();
    let mut idx: usize = 0;
    let ghost mut sym: Seq<crate::ast::Expr> = Seq::empty();
    proof {
        assert(code.take(0) =~= Seq::<Instr>::empty());
    }
    while idx < n
        invariant
            idx <= n,
            n == code.len(),
            code == plan.code@,
            plan_wf(code, input@.len() as int),
            sym_run(code, Seq::empty()) matches Some(fin) && fin.len() == 1,
            sym_run(code.take(idx as int), Seq::empty()) == Some(sym),
            sym.len() == stack@.len(),
            spec_exec_plan(k, input@, t_bits, code.take(idx as int), Seq::empty()) == Ok::<
                Seq<CBits>,
                EvalErrorKind,
            >(stack@),
        decreases n - idx
    {
        let ins = plan.code[idx];
        let ghost st0 = stack@;
        proof {
            assert(ins == code[idx as int]);
            assert(instr_wf(code[idx as int], input@.len() as int));
            // The full symbolic run succeeds, so this step cannot underflow.
            assert(code =~= code.take(idx as int) + code.skip(idx as int));
            lemma_sym_run_app(code.take(idx as int), code.skip(idx as int), Seq::empty());
            assert(code.skip(idx as int)[0] == ins);
            assert(code.skip(idx as int).len() > 0);
            assert(sym_step(sym, ins) is Some);
            // The next prefix describes the stack after this iteration.
            assert(code.take(idx as int + 1) =~= code.take(idx as int) + seq![ins]);
            lemma_sym_run_app(code.take(idx as int), seq![ins], Seq::empty());
            lemma_sym_run_single(ins, sym);
            // And the specification run splits the same two ways.
            lemma_exec_app(k, input@, t_bits, code.take(idx as int), code.skip(idx as int), Seq::empty());
            lemma_exec_app(k, input@, t_bits, code.take(idx as int), seq![ins], Seq::empty());
            lemma_exec_single(k, input@, t_bits, ins, st0);
        }
        match ins {
            Instr::PushNum { start, end } => {
                let lit = slice_subrange(input, start, end);
                let bits = k.parse_num(lit);
                if !f64_is_finite(bits) {
                    return EvalOutcome::Failed(EvalErrorKind::NonFinite);
                }
                stack.push(CBits { re: bits, im: 0 });
            },
            Instr::PushI => {
                stack.push(CBits { re: 0, im: F64_ONE_BITS });
            },
            Instr::PushT => {
                stack.push(CBits { re: t_bits, im: 0 });
            },
            Instr::Neg => {
                let a = stack.pop().unwrap();
                stack.push(c_neg(a));
            },
            Instr::Call(f) => {
                let a = stack.pop().unwrap();
                match f {
                    Func::Conj => {
                        stack.push(c_conj(a));
                    },
                    Func::Re => {
                        stack.push(c_re(a));
                    },
                    Func::Im => {
                        stack.push(c_im(a));
                    },
                    _ => {
                        let v = k.apply(f, a);
                        if c_is_finite(a) && !c_is_finite(v) {
                            return EvalOutcome::Failed(EvalErrorKind::NonFinite);
                        }
                        stack.push(v);
                    },
                }
            },
            Instr::Bin(op) => {
                let b = stack.pop().unwrap();
                let a = stack.pop().unwrap();
                let v = match op {
                    BinOp::Add => k.add(a, b),
                    BinOp::Sub => k.sub(a, b),
                    BinOp::Mul => k.mul(a, b),
                    BinOp::Pow => k.pow(a, b),
                    BinOp::Div => {
                        if c_is_zero(b) {
                            proof {
                                assert(code[idx as int] == Instr::Bin(BinOp::Div));
                            }
                            return EvalOutcome::Failed(EvalErrorKind::DivisionByZero);
                        }
                        k.div(a, b)
                    },
                };
                if c_is_finite(a) && c_is_finite(b) && !c_is_finite(v) {
                    return EvalOutcome::Failed(EvalErrorKind::NonFinite);
                }
                stack.push(v);
            },
        }
        proof {
            assert(spec_exec_step(k, input@, t_bits, st0, ins) == Ok::<Seq<CBits>, EvalErrorKind>(
                stack@,
            ));
            if let Some(s2) = sym_step(sym, ins) {
                sym = s2;
            }
        }
        idx = idx + 1;
    }
    proof {
        assert(code.take(n as int) =~= code);
    }
    let v = stack.pop().unwrap();
    EvalOutcome::Value(v)
}

} // verus!
