use helix_core::api::{compile_expression, generate_points, RequestError};
use helix_core::ast::Func;
use helix_core::eval::{eval_plan, CBits, EvalErrorKind, EvalOutcome, NumKernel};
use helix_core::sample::{CoordinateMapping, SampleError};

/// The reference kernel: raw IEEE-754 complex arithmetic on doubles, with
/// the standard definitions and principal branches.
struct IeeeKernel;

fn c(a: CBits) -> (f64, f64) {
    (f64::from_bits(a.re), f64::from_bits(a.im))
}

fn bits(z: (f64, f64)) -> CBits {
    CBits { re: z.0.to_bits(), im: z.1.to_bits() }
}

fn cmul(a: (f64, f64), b: (f64, f64)) -> (f64, f64) {
    (a.0 * b.0 - a.1 * b.1, a.0 * b.1 + a.1 * b.0)
}

fn cexp(z: (f64, f64)) -> (f64, f64) {
    let m = z.0.exp();
    (m * z.1.cos(), m * z.1.sin())
}

fn cln(z: (f64, f64)) -> (f64, f64) {
    (z.0.hypot(z.1).ln(), z.1.atan2(z.0))
}

impl NumKernel for IeeeKernel {
    fn add(&self, a: CBits, b: CBits) -> CBits {
        let (x, y) = (c(a), c(b));
        bits((x.0 + y.0, x.1 + y.1))
    }

    fn sub(&self, a: CBits, b: CBits) -> CBits {
        let (x, y) = (c(a), c(b));
        bits((x.0 - y.0, x.1 - y.1))
    }

    fn mul(&self, a: CBits, b: CBits) -> CBits {
        bits(cmul(c(a), c(b)))
    }

    fn div(&self, a: CBits, b: CBits) -> CBits {
        let (x, y) = (c(a), c(b));
        let d = y.0 * y.0 + y.1 * y.1;
        bits(((x.0 * y.0 + x.1 * y.1) / d, (x.1 * y.0 - x.0 * y.1) / d))
    }

    fn pow(&self, a: CBits, b: CBits) -> CBits {
        bits(cexp(cmul(c(b), cln(c(a)))))
    }

    fn apply(&self, f: Func, a: CBits) -> CBits {
        let z = c(a);
        let r = match f {
            Func::Exp => cexp(z),
            Func::Sin => (z.0.sin() * z.1.cosh(), z.0.cos() * z.1.sinh()),
            Func::Cos => (z.0.cos() * z.1.cosh(), -(z.0.sin() * z.1.sinh())),
            Func::Sqrt => {
                let m = z.0.hypot(z.1).sqrt();
                let h = z.1.atan2(z.0) / 2.0;
                (m * h.cos(), m * h.sin())
            },
            Func::Abs => (z.0.hypot(z.1), 0.0),
            Func::Conj => (z.0, -z.1),
            Func::Re => (z.0, 0.0),
            Func::Im => (z.1, 0.0),
        };
        bits(r)
    }

    fn parse_num(&self, lit: &[u8]) -> u64 {
        let s = std::str::from_utf8(lit).expect("literal is ASCII");
        s.parse::<f64>().expect("literal is a decimal number").to_bits()
    }

    fn lerp(&self, t_min: u64, t_max: u64, steps: usize, i: usize) -> u64 {
        let a = f64::from_bits(t_min);
        let b = f64::from_bits(t_max);
        let dt = (b - a) / (steps as f64 - 1.0);
        (a + i as f64 * dt).to_bits()
    }

    fn narrow(&self, b: u64) -> u32 {
        (f64::from_bits(b) as f32).to_bits()
    }
}

fn eval_at(text: &str, t: f64) -> EvalOutcome {
    let bytes = text.as_bytes();
    let plan = compile_expression(bytes).expect("expression compiles");
    eval_plan(&IeeeKernel, bytes, &plan, t.to_bits())
}

fn value_of(out: EvalOutcome) -> (f64, f64) {
    match out {
        EvalOutcome::Value(v) => (f64::from_bits(v.re), f64::from_bits(v.im)),
        EvalOutcome::Failed(kind) => panic!("evaluation failed: {:?}", kind),
    }
}

fn floats(buffer: &[u32]) -> Vec<f32> {
    buffer.iter().map(|b| f32::from_bits(*b)).collect()
}

#[test]
fn exp_it_at_zero_is_one() {
    let (re, im) = value_of(eval_at("exp(i*t)", 0.0));
    assert_eq!(re, 1.0);
    assert_eq!(im, 0.0);
}

#[test]
fn exp_it_at_half_pi_is_i() {
    let (re, im) = value_of(eval_at("exp(i*t)", std::f64::consts::FRAC_PI_2));
    assert!(re.abs() < 1e-9);
    assert!((im - 1.0).abs() < 1e-9);
}

#[test]
fn precedence_value_is_fourteen() {
    let (re, im) = value_of(eval_at("2 + 3 * 4", 0.0));
    assert_eq!(re, 14.0);
    assert_eq!(im, 0.0);
}

#[test]
fn power_value_is_right_associative() {
    // 2 ^ 3 ^ 2 == 2 ^ 9 == 512, not (2^3)^2 == 64
    let (re, im) = value_of(eval_at("2 ^ 3 ^ 2", 0.0));
    assert!((re - 512.0).abs() < 1e-9);
    assert!(im.abs() < 1e-9);
}

#[test]
fn named_functions_evaluate() {
    let (re, _) = value_of(eval_at("abs(3*i) + re(2+i) + im(i) + conj(i)*i + sqrt(4)", 0.0));
    // 3 + 2 + 1 + 1 + 2
    assert!((re - 9.0).abs() < 1e-9);
}

#[test]
fn two_steps_sample_exactly_the_endpoints() {
    let out = generate_points(
        &IeeeKernel,
        "t".as_bytes(),
        0.0f64.to_bits(),
        1.0f64.to_bits(),
        2,
        CoordinateMapping::ParamReIm,
    )
    .unwrap();
    assert_eq!(out.errors.len(), 0);
    // (t, Re, Im) at t=0 and t=1, nothing in between
    assert_eq!(floats(&out.buffer), vec![0.0, 0.0, 0.0, 1.0, 1.0, 0.0]);
}

#[test]
fn step_counts_below_two_are_rejected() {
    for steps in [0usize, 1usize] {
        let r = generate_points(
            &IeeeKernel,
            "t".as_bytes(),
            0.0f64.to_bits(),
            1.0f64.to_bits(),
            steps,
            CoordinateMapping::ParamReIm,
        );
        match r {
            Err(RequestError::Sample(SampleError::InvalidStepCount)) => {},
            other => panic!("expected InvalidStepCount, got {:?}", other),
        }
    }
}

#[test]
fn division_by_zero_is_recorded_per_sample() {
    let steps = 4usize;
    let out = generate_points(
        &IeeeKernel,
        "1/(t-t)".as_bytes(),
        0.0f64.to_bits(),
        1.0f64.to_bits(),
        steps,
        CoordinateMapping::ParamReIm,
    )
    .unwrap();
    assert_eq!(out.buffer.len(), 3 * steps);
    assert_eq!(out.errors.len(), steps);
    for (i, rec) in out.errors.iter().enumerate() {
        assert_eq!(rec.index, i);
        assert_eq!(rec.kind, EvalErrorKind::DivisionByZero);
    }
    assert!(out.buffer.iter().all(|b| *b == 0));
}

#[test]
fn overflow_is_recorded_as_non_finite() {
    let out = generate_points(
        &IeeeKernel,
        "exp(1000)".as_bytes(),
        0.0f64.to_bits(),
        1.0f64.to_bits(),
        2,
        CoordinateMapping::ParamReIm,
    )
    .unwrap();
    assert_eq!(out.errors.len(), 2);
    assert_eq!(out.errors[0].kind, EvalErrorKind::NonFinite);
}

#[test]
fn overflowing_literal_is_recorded_as_non_finite() {
    let out = generate_points(
        &IeeeKernel,
        "1e400".as_bytes(),
        0.0f64.to_bits(),
        1.0f64.to_bits(),
        2,
        CoordinateMapping::ParamReIm,
    )
    .unwrap();
    assert_eq!(out.errors.len(), 2);
    assert_eq!(out.errors[0].kind, EvalErrorKind::NonFinite);
}

#[test]
fn buffer_length_and_endpoint_triples() {
    let steps = 5usize;
    let t_max = 2.0 * std::f64::consts::PI;
    let out = generate_points(
        &IeeeKernel,
        "cos(t)+i*sin(t)".as_bytes(),
        0.0f64.to_bits(),
        t_max.to_bits(),
        steps,
        CoordinateMapping::ParamReIm,
    )
    .unwrap();
    assert_eq!(out.buffer.len(), 3 * steps);
    assert_eq!(out.errors.len(), 0);
    let f = floats(&out.buffer);
    // first triple belongs to t = t_min, last to t = t_max
    assert_eq!(f[0], 0.0f32);
    assert_eq!(f[3 * steps - 3], t_max as f32);
}

#[test]
fn helix_layout_matches_direct_computation() {
    let steps = 7usize;
    let t_min = -1.0f64;
    let t_max = 2.5f64;
    let out = generate_points(
        &IeeeKernel,
        "cos(t)+i*sin(t)".as_bytes(),
        t_min.to_bits(),
        t_max.to_bits(),
        steps,
        CoordinateMapping::ReImParam,
    )
    .unwrap();
    let f = floats(&out.buffer);
    let dt = (t_max - t_min) / (steps as f64 - 1.0);
    for i in 0..steps {
        let t = if i == 0 {
            t_min
        } else if i == steps - 1 {
            t_max
        } else {
            t_min + i as f64 * dt
        };
        assert!((f[3 * i] as f64 - t.cos()).abs() < 1e-6, "x of sample {}", i);
        assert!((f[3 * i + 1] as f64 - t.sin()).abs() < 1e-6, "y of sample {}", i);
        assert_eq!(f[3 * i + 2], t as f32, "z of sample {}", i);
    }
}

#[test]
fn identical_requests_yield_identical_output() {
    let run = || {
        generate_points(
            &IeeeKernel,
            "exp(i*t) + 0.5*t".as_bytes(),
            0.25f64.to_bits(),
            3.5f64.to_bits(),
            33,
            CoordinateMapping::ReImParam,
        )
        .unwrap()
    };
    let a = run();
    let b = run();
    assert_eq!(a.buffer, b.buffer);
    assert_eq!(a.errors.len(), b.errors.len());
}

#[test]
fn malformed_expression_fails_before_sampling() {
    let r = generate_points(
        &IeeeKernel,
        "2 $ 2".as_bytes(),
        0.0f64.to_bits(),
        1.0f64.to_bits(),
        8,
        CoordinateMapping::ParamReIm,
    );
    match r {
        Err(RequestError::Lex(le)) => {
            assert_eq!(le.pos, 2);
            assert_eq!(le.byte, 0x24);
        },
        other => panic!("expected a lex error, got {:?}", other),
    }
}

#[test]
fn fractional_and_exponent_literals_evaluate() {
    let (re, _) = value_of(eval_at("1.5 + 2.5e1 + 3e-1", 0.0));
    assert!((re - 26.8).abs() < 1e-9);
}

#[test]
fn negation_and_conjugation_are_bit_exact() {
    let (re, im) = value_of(eval_at("-conj(t + 2*i)", 3.0));
    assert_eq!(re, -3.0);
    assert_eq!(im, 2.0);
}
