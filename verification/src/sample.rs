//! Sampler and buffer packer.
//!
//! `sample` drives a compiled plan over `[t_min, t_max]` at a fixed step
//! count and packs the results as interleaved triples of single-precision
//! bit patterns. Its contract is exact: triple `i` of the buffer is the
//! mapping order of the narrowed components of the evaluation at the
//! parameter of sample `i` — exactly `t_min` first, exactly `t_max` last —
//! and the error list holds exactly the failed samples, in order, each with
//! its cause; a failed sample's triple is the all-zero sentinel and never
//! aborts the run.

use vstd::prelude::*;
use crate::eval::{EvalErrorKind, EvalOutcome, NumKernel, eval_plan, spec_eval};
use crate::plan::{Instr, Plan, plan_wf, sym_run};

verus! {

/// How one complex sample (plus the parameter) projects onto three floats.
#[derive(Clone, Copy, Debug, PartialEq, Eq, Structural)]
pub enum CoordinateMapping {
    /// `(t, Re, Im)`.
    ParamReIm,
    /// `(Re, Im, t)`.
    ReImParam,
}

/// A per-sample evaluation failure: which sample, and why.
#[derive(Clone, Copy, Debug, PartialEq, Eq, Structural)]
pub struct SampleErrorRecord {
    pub index: usize,
    pub kind: EvalErrorKind,
}

/// A request-level sampling failure.
#[derive(Clone, Copy, Debug, PartialEq, Eq, Structural)]
pub enum SampleError {
    /// Fewer than two samples were requested: the uniform step formula
    /// would divide by zero, so the request is rejected.
    InvalidStepCount,
}

/// The packed result of a run: `3 * steps` single-precision bit patterns,
/// interleaved `x0, y0, z0, x1, y1, z1, ...`, and the samples that failed
/// (empty when none did).
#[derive(Debug)]
pub struct RunOutput {
    pub buffer: Vec<u32>,
    pub errors: Vec<SampleErrorRecord>,
}

/// Three components in mapping order.
pub open spec fn spec_triple(mapping: CoordinateMapping, t32: u32, re32: u32, im32: u32) -> Seq<u32> {
    match mapping {
        CoordinateMapping::ParamReIm => seq![t32, re32, im32],
        CoordinateMapping::ReImParam => seq![re32, im32, t32],
    }
}

/// The parameter bits of sample `i`: exactly `t_min` first, exactly `t_max`
/// last, the kernel's step formula in between.
pub open spec fn spec_t_at<K: NumKernel>(k: &K, t_min: u64, t_max: u64, steps: usize, i: int) -> u64 {
    if i == 0 {
        t_min
    } else if i == steps - 1 {
        t_max
    } else {
        k.lerp_spec(t_min, t_max, steps, i as usize)
    }
}

/// The triple one sample contributes to the buffer: the mapping order of
/// the narrowed evaluation components, or the all-zero sentinel when the
/// evaluation failed.
pub open spec fn spec_sample_triple<K: NumKernel>(
    k: &K,
    input: Seq<u8>,
    code: Seq<Instr>,
    mapping: CoordinateMapping,
    tb: u64,
) -> Seq<u32> {
    match spec_eval(k, input, code, tb) {
        EvalOutcome::Value(v) => spec_triple(
            mapping,
            k.narrow_spec(tb),
            k.narrow_spec(v.re),
            k.narrow_spec(v.im),
        ),
        EvalOutcome::Failed(_) => seq![0u32, 0u32, 0u32],
    }
}

/// The error records of the first `upto` samples: exactly the failed ones,
/// in sample order, each with its cause.
pub open spec fn spec_errors<K: NumKernel>(
    k: &K,
    input: Seq<u8>,
    code: Seq<Instr>,
    t_min: u64,
    t_max: u64,
    steps: usize,
    upto: int,
) -> Seq<SampleErrorRecord>
    decreases upto
{
    if upto <= 0 {
        Seq::empty()
    } else {
        let rest = spec_errors(k, input, code, t_min, t_max, steps, upto - 1);
        match spec_eval(k, input, code, spec_t_at(k, t_min, t_max, steps, upto - 1)) {
            EvalOutcome::Value(_) => rest,
            EvalOutcome::Failed(kind) => rest.push(
                SampleErrorRecord { index: (upto - 1) as usize, kind },
            ),
        }
    }
}

fn push_triple(buffer: &mut Vec<u32>, x: u32, y: u32, z: u32)
    ensures
        final(buffer)@ == old(buffer)@ + seq![x, y, z],
{
    buffer.push(x);
    buffer.push(y);
    buffer.push(z);
    proof {
        assert(buffer@ =~= old(buffer)@ + seq![x, y, z]);
    }
}

/// Append the triple of a successful sample, in mapping order.
fn record_value(mapping: CoordinateMapping, t32: u32, re32: u32, im32: u32, buffer: &mut Vec<u32>)
    ensures
        final(buffer)@ == old(buffer)@ + spec_triple(mapping, t32, re32, im32),
{
    match mapping {
        CoordinateMapping::ParamReIm => push_triple(buffer, t32, re32, im32),
        CoordinateMapping::ReImParam => push_triple(buffer, re32, im32, t32),
    }
}

/// Appending one sample's triple keeps every earlier triple in place.
proof fn lemma_push_sample<K: NumKernel>(
    k: &K,
    input: Seq<u8>,
    code: Seq<Instr>,
    mapping: CoordinateMapping,
    t_min: u64,
    t_max: u64,
    steps: usize,
    buf0: Seq<u32>,
    tri: Seq<u32>,
    i: int,
)
    requires
        0 <= i,
        buf0.len() == 3 * i,
        forall|j: int| 0 <= j < i ==> #[trigger] buf0.subrange(3 * j, 3 * j + 3)
            == spec_sample_triple(k, input, code, mapping, spec_t_at(k, t_min, t_max, steps, j)),
        tri.len() == 3,
        tri == spec_sample_triple(k, input, code, mapping, spec_t_at(k, t_min, t_max, steps, i)),
    ensures
        forall|j: int| 0 <= j < i + 1 ==> #[trigger] (buf0 + tri).subrange(3 * j, 3 * j + 3)
            == spec_sample_triple(k, input, code, mapping, spec_t_at(k, t_min, t_max, steps, j)),
{
    let whole = buf0 + tri;
    assert forall|j: int| 0 <= j < i + 1 implies #[trigger] whole.subrange(3 * j, 3 * j + 3)
        == spec_sample_triple(k, input, code, mapping, spec_t_at(k, t_min, t_max, steps, j)) by {
        if j < i {
            assert(whole.subrange(3 * j, 3 * j + 3) =~= buf0.subrange(3 * j, 3 * j + 3));
        } else {
            assert(whole.subrange(3 * i, 3 * i + 3) =~= tri);
        }
    }
}

/// The parameter bits for sample `i`, equal to [`spec_t_at`]: exactly
/// `t_min` first, exactly `t_max` last, the kernel's step formula in
/// between.
pub fn t_at<K: NumKernel>(k: &K, t_min_bits: u64, t_max_bits: u64, steps: usize, i: usize) -> (r: u64)
    requires
        2 <= steps,
        i < steps,
    ensures
        r == spec_t_at(k, t_min_bits, t_max_bits, steps, i as int),
{
    if i == 0 {
        t_min_bits
    } else if i == steps - 1 {
        t_max_bits
    } else {
        k.lerp(t_min_bits, t_max_bits, steps, i)
    }
}

/// Sample a compiled plan: `steps` evaluations packed into one buffer.
///
/// Fails (with `InvalidStepCount`, before any evaluation) exactly when
/// `steps < 2`. On success the buffer holds exactly `3 * steps` values:
/// triple `i` is [`spec_sample_triple`] at the parameter [`spec_t_at`] of
/// sample `i`, and the error list is exactly [`spec_errors`] — the failed
/// samples in order, each with its cause.
#[verifier::rlimit(100)]
pub fn sample<K: NumKernel>(
    k: &K,
    input: &[u8],
    plan: &Plan,
    t_min_bits: u64,
    t_max_bits: u64,
    steps: usize,
    mapping: CoordinateMapping,
) -> (r: Result<RunOutput, SampleError>)
    requires
        plan_wf(plan.code@, input@.len() as int),
        sym_run(plan.code@, Seq::empty()) matches Some(fin) && fin.len() == 1,
    ensures
        (steps < 2) <==> (r is Err),
        r matches Err(e) ==> e == SampleError::InvalidStepCount,
        r matches Ok(out) ==> {
            &&& out.buffer@.len() == 3 * steps
            &&& (forall|i: int| 0 <= i < steps ==> #[trigger] out.buffer@.subrange(3 * i, 3 * i + 3)
                == spec_sample_triple(
                    k,
                    input@,
                    plan.code@,
                    mapping,
                    spec_t_at(k, t_min_bits, t_max_bits, steps, i),
                ))
            &&& out.errors@ == spec_errors(
                k,
                input@,
                plan.code@,
                t_min_bits,
                t_max_bits,
                steps,
                steps as int,
            )
        },
{
    if steps < 2 {
        return Err(SampleError::InvalidStepCount);
    }
    let ghost code = plan.code@;
    let mut buffer: Vec<u32> = Vec::new();
    let mut errors: Vec<SampleErrorRecord> = Vec::new();
    let mut i: usize = 0;
    while i < steps
        invariant
            2 <= steps,
            i <= steps,
            code == plan.code@,
            plan_wf(code, input@.len() as int),
            sym_run(code, Seq::empty()) matches Some(fin) && fin.len() == 1,
            buffer@.len() == 3 * i,
            forall|j: int| 0 <= j < i ==> #[trigger] buffer@.subrange(3 * j, 3 * j + 3)
                == spec_sample_triple(
                    k,
                    input@,
                    code,
                    mapping,
                    spec_t_at(k, t_min_bits, t_max_bits, steps, j),
                ),
            errors@ == spec_errors(k, input@, code, t_min_bits, t_max_bits, steps, i as int),
        decreases steps - i
    {
        let tb = t_at(k, t_min_bits, t_max_bits, steps, i);
        let ghost buf0 = buffer@;
        let ghost tri = spec_sample_triple(
            k,
            input@,
            code,
            mapping,
            spec_t_at(k, t_min_bits, t_max_bits, steps, i as int),
        );
        match eval_plan(k, input, plan, tb) {
            EvalOutcome::Value(v) => {
                let t32 = k.narrow(tb);
                let re32 = k.narrow(v.re);
                let im32 = k.narrow(v.im);
                record_value(mapping, t32, re32, im32, &mut buffer);
            },
            EvalOutcome::Failed(kind) => {
                push_triple(&mut buffer, 0, 0, 0);
                errors.push(SampleErrorRecord { index: i, kind });
            },
        }
        proof {
            assert(buffer@ == buf0 + tri);
            assert(tri.len() == 3);
            lemma_push_sample(
                k,
                input@,
                code,
                mapping,
                t_min_bits,
                t_max_bits,
                steps,
                buf0,
                tri,
                i as int,
            );
            assert(errors@ == spec_errors(
                k,
                input@,
                code,
                t_min_bits,
                t_max_bits,
                steps,
                i as int + 1,
            ));
        }
        i = i + 1;
    }
    Ok(RunOutput { buffer, errors })
}

} // verus!
