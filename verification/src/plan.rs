//! Evaluation plans.
//!
//! `compile` flattens an expression tree into postfix code for a stack
//! machine. The theorem [`lemma_compile_sym`] shows that running the code
//! symbolically — interpreting every instruction as the tree constructor it
//! stands for — rebuilds exactly the compiled expression, on any starting
//! stack. The evaluator leans on this to know the machine never underflows
//! and ends with exactly one value.

use vstd::prelude::*;
use crate::ast::{Expr, Func, BinOp, expr_wf};

verus! {

/// One stack-machine instruction.
#[derive(Clone, Copy, Debug, PartialEq, Eq, Structural)]
pub enum Instr {
    /// Push the literal with byte span `[start, end)` of the input text.
    PushNum { start: usize, end: usize },
    /// Push the imaginary unit.
    PushI,
    /// Push the parameter value.
    PushT,
    /// Negate the value on top of the stack.
    Neg,
    /// Pop two values, push the operator applied to them.
    Bin(BinOp),
    /// Pop one value, push the registry function applied to it.
    Call(Func),
}

/// A compiled, reusable evaluation plan: postfix code, immutable and free of
/// state between runs.
#[derive(Debug)]
pub struct Plan {
    pub code: Vec<Instr>,
}

/// The instruction's literal span lies inside an input of length `n`.
pub open spec fn instr_wf(ins: Instr, n: int) -> bool {
    match ins {
        Instr::PushNum { start, end } => start <= end <= n,
        _ => true,
    }
}

/// Every literal span of the code lies inside an input of length `n`.
pub open spec fn plan_wf(code: Seq<Instr>, n: int) -> bool {
    forall|k: int| 0 <= k < code.len() ==> instr_wf(#[trigger] code[k], n)
}

/// One symbolic step: the instruction applied to a stack of expression
/// trees, building the tree node it stands for. `None` on underflow.
pub open spec fn sym_step(st: Seq<Expr>, ins: Instr) -> Option<Seq<Expr>> {
    match ins {
        Instr::PushNum { start, end } => Some(st.push(Expr::Num { start, end })),
        Instr::PushI => Some(st.push(Expr::ImUnit)),
        Instr::PushT => Some(st.push(Expr::Param)),
        Instr::Neg => if st.len() >= 1 {
            Some(st.drop_last().push(Expr::Neg(Box::new(st.last()))))
        } else {
            None
        },
        Instr::Bin(op) => if st.len() >= 2 {
            let l = st[st.len() - 2];
            let r = st[st.len() - 1];
            Some(st.drop_last().drop_last().push(Expr::Bin(op, Box::new(l), Box::new(r))))
        } else {
            None
        },
        Instr::Call(f) => if st.len() >= 1 {
            Some(st.drop_last().push(Expr::Call(f, Box::new(st.last()))))
        } else {
            None
        },
    }
}

/// Run the symbolic machine over the code, left to right.
pub open spec fn sym_run(code: Seq<Instr>, st: Seq<Expr>) -> Option<Seq<Expr>>
    decreases code.len()
{
    if code.len() == 0 {
        Some(st)
    } else {
        match sym_step(st, code[0]) {
            Some(st2) => sym_run(code.subrange(1, code.len() as int), st2),
            None => None,
        }
    }
}

/// Splitting the code splits the run.
pub proof fn lemma_sym_run_app(c1: Seq<Instr>, c2: Seq<Instr>, st: Seq<Expr>)
    ensures
        sym_run(c1 + c2, st) == (match sym_run(c1, st) {
            Some(m) => sym_run(c2, m),
            None => None::<Seq<Expr>>,
        }),
    decreases c1.len()
{
    if c1.len() == 0 {
        assert(c1 + c2 =~= c2);
    } else {
        let whole = c1 + c2;
        assert(whole[0] == c1[0]);
        match sym_step(st, c1[0]) {
            Some(st2) => {
                assert(whole.subrange(1, whole.len() as int) =~= c1.subrange(
                    1,
                    c1.len() as int,
                ) + c2);
                lemma_sym_run_app(c1.subrange(1, c1.len() as int), c2, st2);
            },
            None => {},
        }
    }
}

/// The postfix code of an expression tree.
pub open spec fn spec_compile(e: Expr) -> Seq<Instr>
    decreases e
{
    match e {
        Expr::Num { start, end } => seq![Instr::PushNum { start, end }],
        Expr::ImUnit => seq![Instr::PushI],
        Expr::Param => seq![Instr::PushT],
        Expr::Neg(a) => spec_compile(*a) + seq![Instr::Neg],
        Expr::Bin(op, l, r) => spec_compile(*l) + spec_compile(*r) + seq![Instr::Bin(op)],
        Expr::Call(f, a) => spec_compile(*a) + seq![Instr::Call(f)],
    }
}

pub proof fn lemma_sym_run_single(ins: Instr, st: Seq<Expr>)
    ensures
        sym_run(seq![ins], st) == sym_step(st, ins),
{
    assert(seq![ins].subrange(1, 1) =~= Seq::<Instr>::empty());
    if let Some(st2) = sym_step(st, ins) {
        assert(sym_run(seq![ins].subrange(1, 1), st2) == Some(st2));
    }
}

/// Compiled code, run symbolically on any starting stack, pushes exactly the
/// expression it was compiled from: compilation is faithful.
pub proof fn lemma_compile_sym(e: Expr, st: Seq<Expr>)
    ensures
        sym_run(spec_compile(e), st) == Some(st.push(e)),
    decreases e
{
    match e {
        Expr::Num { start, end } => {
            lemma_sym_run_single(Instr::PushNum { start, end }, st);
        },
        Expr::ImUnit => {
            lemma_sym_run_single(Instr::PushI, st);
        },
        Expr::Param => {
            lemma_sym_run_single(Instr::PushT, st);
        },
        Expr::Neg(a) => {
            lemma_compile_sym(*a, st);
            lemma_sym_run_app(spec_compile(*a), seq![Instr::Neg], st);
            let st2 = st.push(*a);
            lemma_sym_run_single(Instr::Neg, st2);
            assert(st2.drop_last() =~= st);
            assert(st2.last() == *a);
            assert(Expr::Neg(Box::new(st2.last())) == e);
        },
        Expr::Bin(op, l, r) => {
            let cl = spec_compile(*l);
            let cr = spec_compile(*r);
            let cb = seq![Instr::Bin(op)];
            assert(spec_compile(e) =~= cl + (cr + cb));
            lemma_compile_sym(*l, st);
            lemma_sym_run_app(cl, cr + cb, st);
            let st1 = st.push(*l);
            lemma_compile_sym(*r, st1);
            lemma_sym_run_app(cr, cb, st1);
            let st2 = st1.push(*r);
            lemma_sym_run_single(Instr::Bin(op), st2);
            assert(st2[st2.len() - 2] == *l);
            assert(st2[st2.len() - 1] == *r);
            assert(st2.drop_last().drop_last() =~= st);
            assert(Expr::Bin(op, Box::new(*l), Box::new(*r)) == e);
        },
        Expr::Call(f, a) => {
            lemma_compile_sym(*a, st);
            lemma_sym_run_app(spec_compile(*a), seq![Instr::Call(f)], st);
            let st2 = st.push(*a);
            lemma_sym_run_single(Instr::Call(f), st2);
            assert(st2.drop_last() =~= st);
            assert(Expr::Call(f, Box::new(st2.last())) == e);
        },
    }
}

proof fn lemma_plan_wf_app(c1: Seq<Instr>, c2: Seq<Instr>, n: int)
    requires
        plan_wf(c1, n),
        plan_wf(c2, n),
    ensures
        plan_wf(c1 + c2, n),
{
    let whole = c1 + c2;
    assert forall|k: int| 0 <= k < whole.len() implies instr_wf(#[trigger] whole[k], n) by {
        if k < c1.len() {
            assert(whole[k] == c1[k]);
        } else {
            assert(whole[k] == c2[k - c1.len()]);
        }
    }
}

/// A well-formed expression compiles to code whose spans are well formed.
pub proof fn lemma_compile_wf(e: Expr, n: int)
    requires
        expr_wf(e, n),
    ensures
        plan_wf(spec_compile(e), n),
    decreases e
{
    match e {
        Expr::Num { start, end } => {
            assert(instr_wf(spec_compile(e)[0], n));
        },
        Expr::ImUnit => {
            assert(instr_wf(spec_compile(e)[0], n));
        },
        Expr::Param => {
            assert(instr_wf(spec_compile(e)[0], n));
        },
        Expr::Neg(a) => {
            lemma_compile_wf(*a, n);
            assert(plan_wf(seq![Instr::Neg], n)) by {
                assert(instr_wf(seq![Instr::Neg][0], n));
            }
            lemma_plan_wf_app(spec_compile(*a), seq![Instr::Neg], n);
        },
        Expr::Bin(op, l, r) => {
            lemma_compile_wf(*l, n);
            lemma_compile_wf(*r, n);
            lemma_plan_wf_app(spec_compile(*l), spec_compile(*r), n);
            assert(plan_wf(seq![Instr::Bin(op)], n)) by {
                assert(instr_wf(seq![Instr::Bin(op)][0], n));
            }
            lemma_plan_wf_app(spec_compile(*l) + spec_compile(*r), seq![Instr::Bin(op)], n);
        },
        Expr::Call(f, a) => {
            lemma_compile_wf(*a, n);
            assert(plan_wf(seq![Instr::Call(f)], n)) by {
                assert(instr_wf(seq![Instr::Call(f)][0], n));
            }
            lemma_plan_wf_app(spec_compile(*a), seq![Instr::Call(f)], n);
        },
    }
}

fn emit(e: &Expr, out: &mut Vec<Instr>)
    ensures
        final(out)@ == old(out)@ + spec_compile(*e),
    decreases *e
{
    match e {
        Expr::Num { start, end } => {
            out.push(Instr::PushNum { start: *start, end: *end });
            assert(out@ =~= old(out)@ + spec_compile(*e));
        },
        Expr::ImUnit => {
            out.push(Instr::PushI);
            assert(out@ =~= old(out)@ + spec_compile(*e));
        },
        Expr::Param => {
            out.push(Instr::PushT);
            assert(out@ =~= old(out)@ + spec_compile(*e));
        },
        Expr::Neg(a) => {
            emit(a, out);
            out.push(Instr::Neg);
            assert(out@ =~= old(out)@ + spec_compile(*e));
        },
        Expr::Bin(op, l, r) => {
            emit(l, out);
            emit(r, out);
            out.push(Instr::Bin(*op));
            assert(out@ =~= old(out)@ + spec_compile(*e));
        },
        Expr::Call(f, a) => {
            emit(a, out);
            out.push(Instr::Call(*f));
            assert(out@ =~= old(out)@ + spec_compile(*e));
        },
    }
}

/// Compile an expression into a plan.
///
/// The code is exactly [`spec_compile`] of the tree; run symbolically it
/// yields back the tree alone, and it inherits the tree's span bounds.
pub fn compile(e: &Expr) -> (r: Plan)
    ensures
        r.code@ == spec_compile(*e),
        sym_run(r.code@, Seq::empty()) == Some(seq![*e]),
        forall|n: int| expr_wf(*e, n) ==> plan_wf(r.code@, n),
{
    let mut code: Vec<Instr> = Vec::new();
    emit(e, &mut code);
    proof {
        assert(code@ =~= spec_compile(*e));
        lemma_compile_sym(*e, Seq::empty());
        assert(Seq::<Expr>::empty().push(*e) =~= seq![*e]);
        assert forall|n: int| expr_wf(*e, n) implies plan_wf(code@, n) by {
            lemma_compile_wf(*e, n);
        }
    }
    Plan { code }
}

} // verus!
