//! The library's stated laws, as proved facts.

use vstd::prelude::*;
use crate::ast::Expr;
use crate::plan::{spec_compile, sym_run, lemma_compile_sym};

verus! {

/// Compilation is faithful: run symbolically, the code of an expression
/// rebuilds exactly that expression and nothing else. Together with the
/// machine's checked stack discipline this pins the shape of every
/// evaluation run.
pub proof fn lemma_plan_rebuilds_expression(e: Expr)
    ensures
        sym_run(spec_compile(e), Seq::empty()) == Some(seq![e]),
{
    lemma_compile_sym(e, Seq::empty());
    assert(Seq::<Expr>::empty().push(e) =~= seq![e]);
}

} // verus!
