//! The public entry points: compile an expression once, sample it many
//! times, or do both in one call.

use vstd::prelude::*;
use crate::lex::{LexError, spec_tokenize, tokenize};
use crate::parse::{ParseError, sp_parse, parse};
use crate::plan::{Instr, Plan, plan_wf, spec_compile, sym_run, compile};
use crate::eval::NumKernel;
use crate::sample::{CoordinateMapping, RunOutput, SampleError, spec_errors, spec_sample_triple, spec_t_at, sample};

verus! {

/// A request-level failure: the whole run is rejected and no buffer is
/// produced.
#[derive(Clone, Copy, Debug, PartialEq, Eq, Structural)]
pub enum RequestError {
    /// A byte no token rule matches.
    Lex(LexError),
    /// A syntax, identifier or arity error.
    Parse(ParseError),
    /// A step count no step size exists for.
    Sample(SampleError),
}

/// What the front end (tokenize, then parse, then compile) yields for an
/// input: the compiled code, or the first request-level error. A
/// mathematical function of the input text alone.
pub open spec fn spec_frontend(s: Seq<u8>) -> Result<Seq<Instr>, RequestError> {
    match spec_tokenize(s) {
        Err(le) => Err(RequestError::Lex(le)),
        Ok(ts) => match sp_parse(s, ts) {
            Err(pe) => Err(RequestError::Parse(pe)),
            Ok(e) => Ok(spec_compile(e)),
        },
    }
}

/// Tokenize, parse and compile an expression into a reusable plan.
///
/// Returns exactly [`spec_frontend`] of the input; a successful plan is
/// well formed for this input and its symbolic run yields one tree.
pub fn compile_expression(input: &[u8]) -> (r: Result<Plan, RequestError>)
    ensures
        match r {
            Ok(p) => {
                &&& spec_frontend(input@) == Ok::<Seq<Instr>, RequestError>(p.code@)
                &&& plan_wf(p.code@, input@.len() as int)
                &&& sym_run(p.code@, Seq::empty()) matches Some(fin) && fin.len() == 1
            },
            Err(e) => spec_frontend(input@) == Err::<Seq<Instr>, RequestError>(e),
        },
{
    let ts = match tokenize(input) {
        Ok(ts) => ts,
        Err(le) => {
            return Err(RequestError::Lex(le));
        },
    };
    let e = match parse(input, ts.as_slice()) {
        Ok(e) => e,
        Err(pe) => {
            return Err(RequestError::Parse(pe));
        },
    };
    let plan = compile(&e);
    Ok(plan)
}

/// Compute the packed sample buffer of an expression over a range.
///
/// The expression is tokenized, parsed and compiled; any failure there, or a
/// step count below two, rejects the whole request before sampling, exactly
/// as [`spec_frontend`] says. On success the buffer holds exactly
/// `3 * steps` single-precision bit patterns: triple `i` is the mapping
/// order of the narrowed evaluation at sample `i`'s parameter, and the
/// error list is exactly the failed samples in order with their causes —
/// a failed sample contributes the all-zero triple and never aborts the
/// run. The result is a mathematical function of the arguments and the
/// kernel's specification members, so identical requests yield identical
/// output.
#[verifier::rlimit(60)]
pub fn generate_points<K: NumKernel>(
    k: &K,
    expression: &[u8],
    t_min_bits: u64,
    t_max_bits: u64,
    steps: usize,
    mapping: CoordinateMapping,
) -> (r: Result<RunOutput, RequestError>)
    ensures
        match r {
            Ok(out) => {
                &&& spec_frontend(expression@) matches Ok(code)
                &&& steps >= 2
                &&& out.buffer@.len() == 3 * steps
                &&& (forall|i: int| 0 <= i < steps ==> #[trigger] out.buffer@.subrange(
                    3 * i,
                    3 * i + 3,
                ) == spec_sample_triple(
                    k,
                    expression@,
                    code,
                    mapping,
                    spec_t_at(k, t_min_bits, t_max_bits, steps, i),
                ))
                &&& out.errors@ == spec_errors(
                    k,
                    expression@,
                    code,
                    t_min_bits,
                    t_max_bits,
                    steps,
                    steps as int,
                )
            },
            Err(e) => match e {
                RequestError::Sample(se) => {
                    &&& spec_frontend(expression@) is Ok
                    &&& steps < 2
                    &&& se == SampleError::InvalidStepCount
                },
                _ => spec_frontend(expression@) == Err::<Seq<Instr>, RequestError>(e),
            },
        },
{
    let plan = match compile_expression(expression) {
        Ok(p) => p,
        Err(e) => {
            return Err(e);
        },
    };
    match sample(k, expression, &plan, t_min_bits, t_max_bits, steps, mapping) {
        Ok(out) => Ok(out),
        Err(se) => Err(RequestError::Sample(se)),
    }
}

} // verus!
