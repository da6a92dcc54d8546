use iterative_polynomial_sampler::IterativePolynomialSampler;
use iterative_polynomial_sampler::Polynomial;

fn poly(coefficients: &[f64]) -> Polynomial {
    let bits: Vec<u64> = coefficients.iter().map(|c| c.to_bits()).collect();
    Polynomial::new(bits)
}

/// Direct evaluation through the library, decoded to f64.
fn eval_f64(p: &Polynomial, x: f64) -> f64 {
    f64::from_bits(p.eval(x.to_bits()))
}

fn next_f32(s: &mut IterativePolynomialSampler) -> f32 {
    f32::from_bits(s.next())
}

#[test]
fn evaluate_matches_direct_computation() {
    let p = poly(&[-7.0, 10.0, -0.8, 0.01]);
    let x: f64 = 3.0;
    let expected: f64 = ((-7.0 + 10.0 * x) + (-0.8) * (x * x)) + 0.01 * ((x * x) * x);
    assert_eq!(p.eval(x.to_bits()), expected.to_bits());
    assert_eq!(eval_f64(&p, 3.0), 16.07);
}

#[test]
fn evaluate_degree_zero_is_the_constant() {
    let p = poly(&[5.25]);
    assert_eq!(p.eval(123.456f64.to_bits()), 5.25f64.to_bits());
    assert_eq!(p.eval((-0.0f64).to_bits()), 5.25f64.to_bits());
}

#[test]
fn constant_polynomial_sampler_is_exact() {
    // Degree 0: every advance returns the constant, exactly, forever.
    let p = poly(&[5.25]);
    let mut s = IterativePolynomialSampler::new(&p, 3.0f64.to_bits(), 0.1f64.to_bits());
    for _ in 0..200 {
        assert_eq!(next_f32(&mut s), 5.25f32);
    }
}

#[test]
fn linear_polynomial_exact_progression() {
    // P(x) = 2 + 0.5 x at dx = 0.25: every value involved is an exact
    // binary fraction, so the sequence is an exact arithmetic progression
    // with common difference b * dx = 0.125.
    let p = poly(&[2.0, 0.5]);
    let mut s = IterativePolynomialSampler::new(&p, 0.0f64.to_bits(), 0.25f64.to_bits());
    let mut previous: Option<f32> = None;
    for i in 0..32 {
        let x: f64 = 0.25 * (i as f64);
        let value = next_f32(&mut s);
        assert_eq!(value, (2.0 + 0.5 * x) as f32);
        if let Some(prev) = previous {
            assert_eq!(value - prev, 0.125f32);
        }
        previous = Some(value);
    }
}

#[test]
fn cubic_scenario_thousand_samples() {
    // N = 3, coefficients [-7.0, 10.0, -0.8, 0.01], x = 3.0, dx = 0.1,
    // 1000 samples against direct evaluation.
    let p = poly(&[-7.0, 10.0, -0.8, 0.01]);
    let mut s = IterativePolynomialSampler::new(&p, 3.0f64.to_bits(), 0.1f64.to_bits());
    for i in 0..1000 {
        let x: f64 = 3.0 + 0.1 * (i as f64);
        let iterative = next_f32(&mut s) as f64;
        let actual = eval_f64(&p, x);
        let error = (iterative - actual).abs();
        if i == 0 {
            // The first sample matches the direct value to within the
            // compact representation's precision.
            assert!(error / actual.abs() < 1e-5);
        }
        if i < 500 {
            assert!(error / actual.abs() < 0.01);
        }
        // Drift accumulates but must not diverge catastrophically.
        assert!(error <= 0.05 * actual.abs().max(1.0));
    }
}

#[test]
fn samplers_from_identical_inputs_are_bit_identical() {
    let p = poly(&[-7.0, 10.0, -0.8, 0.01]);
    let q = poly(&[-7.0, 10.0, -0.8, 0.01]);
    let mut a = IterativePolynomialSampler::new(&p, 3.0f64.to_bits(), 0.1f64.to_bits());
    let mut b = IterativePolynomialSampler::new(&q, 3.0f64.to_bits(), 0.1f64.to_bits());
    for _ in 0..300 {
        assert_eq!(a.next(), b.next());
    }
}

#[test]
fn reconstruction_mid_sequence_stays_in_tolerance() {
    // Run 100 steps from x = 3.0, then build a fresh sampler at the
    // current position x = 13.0 with the same dx: both must track direct
    // evaluation, and each other, over the next 100 steps.
    let p = poly(&[-7.0, 10.0, -0.8, 0.01]);
    let mut continued = IterativePolynomialSampler::new(&p, 3.0f64.to_bits(), 0.1f64.to_bits());
    for _ in 0..100 {
        continued.next();
    }
    let mut fresh = IterativePolynomialSampler::new(&p, 13.0f64.to_bits(), 0.1f64.to_bits());
    for i in 100..200 {
        let x: f64 = 3.0 + 0.1 * (i as f64);
        let actual = eval_f64(&p, x);
        let scale = actual.abs().max(1.0);
        let v_continued = next_f32(&mut continued) as f64;
        let v_fresh = next_f32(&mut fresh) as f64;
        assert!((v_continued - actual).abs() / scale < 1e-3);
        assert!((v_fresh - actual).abs() / scale < 1e-3);
        assert!((v_continued - v_fresh).abs() / scale < 1e-3);
    }
}

#[test]
fn degree_five_tracks_direct_evaluation() {
    let p = poly(&[1.0, -2.0, 0.5, 0.25, -0.125, 0.0625]);
    let mut s = IterativePolynomialSampler::new(&p, 0.5f64.to_bits(), 0.125f64.to_bits());
    for i in 0..200 {
        let x: f64 = 0.5 + 0.125 * (i as f64);
        let iterative = next_f32(&mut s) as f64;
        let actual = eval_f64(&p, x);
        assert!((iterative - actual).abs() <= 1e-4 * actual.abs().max(1.0));
    }
}

#[test]
fn first_sample_is_one_step_past_the_setup_window() {
    // The setup samples the N + 1 positions that precede x; the first
    // advance must land on x itself. For the linear case the narrowing
    // is exact, so the first returned value is exactly P(x).
    let p = poly(&[2.0, 0.5]);
    let mut s = IterativePolynomialSampler::new(&p, 8.0f64.to_bits(), 0.25f64.to_bits());
    assert_eq!(next_f32(&mut s), 6.0f32);
}
