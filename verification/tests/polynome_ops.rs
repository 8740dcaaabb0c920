use polynome::polynomial::{Polynome, PolynomeError};

fn poly(coefs: &[f32]) -> Polynome<f32> {
    Polynome::new(coefs.to_vec())
}

fn evaluate(p: &Polynome<f32>, x: f32) -> f32 {
    p.get_value(0.0, |a: f32, b: f32| a + b, move |i: usize, c: f32| c * x.powi(i as i32))
}

fn add(p: &Polynome<f32>, q: &Polynome<f32>) -> Polynome<f32> {
    p.add(q, 0.0, |a: f32, b: f32| a + b)
}

fn multiply(p: &Polynome<f32>, q: &Polynome<f32>) -> Polynome<f32> {
    p.multiply(q, 0.0, |a: f32, b: f32| a + b, |a: f32, b: f32| a * b)
}

fn derivative(p: &Polynome<f32>) -> Polynome<f32> {
    p.derivative(0.0, |i: usize, c: f32| i as f32 * c)
}

fn primitive(p: &Polynome<f32>) -> Polynome<f32> {
    p.primitive(0.0, |c: f32, i: usize| c / (i as f32))
}

#[test]
fn single_coefficient_evaluates_to_it_everywhere() {
    let p = poly(&[3.5]);
    for x in [-7.25, -1.0, 0.0, 0.5, 2.0, 100.0] {
        assert_eq!(evaluate(&p, x), 3.5);
    }
}

#[test]
fn evaluate_at_zero_gives_constant_term() {
    let p = poly(&[5.0, 3.0, -2.0]);
    assert_eq!(evaluate(&p, 0.0), 5.0);
}

#[test]
fn evaluate_at_negative_point() {
    let p = poly(&[1.0, 2.0, 1.0]);
    assert_eq!(evaluate(&p, -1.0), 0.0);
    assert_eq!(evaluate(&p, -3.0), 4.0);
}

#[test]
fn multiply_evaluates_to_product_of_evaluations() {
    let p = poly(&[1.0, 2.0]);
    let q = poly(&[1.0, 2.0, 3.0]);
    let m = multiply(&p, &q);
    for x in [-2.5, -1.0, 0.0, 0.5, 1.0, 3.0] {
        let lhs = evaluate(&m, x);
        let rhs = evaluate(&p, x) * evaluate(&q, x);
        assert!((lhs - rhs).abs() <= 1e-3 * (1.0 + rhs.abs()));
    }
}

#[test]
fn add_evaluates_to_sum_of_evaluations() {
    let p = poly(&[1.0, -4.0, 0.5]);
    let q = poly(&[2.0, 1.0]);
    let s = add(&p, &q);
    for x in [-2.5, -1.0, 0.0, 0.5, 1.0, 3.0] {
        let lhs = evaluate(&s, x);
        let rhs = evaluate(&p, x) + evaluate(&q, x);
        assert!((lhs - rhs).abs() <= 1e-4 * (1.0 + rhs.abs()));
    }
}

#[test]
fn derivative_of_primitive_reproduces_coefficients() {
    let p = poly(&[1.0, 2.0, 3.0, -4.5]);
    let back = derivative(&primitive(&p));
    assert_eq!(back.coefs, vec![1.0, 2.0, 3.0, -4.5]);
}

#[test]
fn derivative_of_primitive_of_constant() {
    let p = poly(&[7.0]);
    let back = derivative(&primitive(&p));
    assert_eq!(back.coefs, vec![7.0]);
}

#[test]
fn add_keeps_the_full_length_of_equal_operands() {
    let p = poly(&[1.0, 2.0, 3.0]);
    let q = poly(&[1.0, 1.0, 1.0]);
    let s = add(&p, &q);
    assert_eq!(s.coefs, vec![2.0, 3.0, 4.0]);
    assert_eq!(s.coefs.len(), 3);
}

#[test]
fn add_pads_the_shorter_operand_with_zeros() {
    let p = poly(&[1.0]);
    let q = poly(&[2.0, -1.0, 4.0]);
    assert_eq!(add(&p, &q).coefs, vec![3.0, -1.0, 4.0]);
    assert_eq!(add(&q, &p).coefs, vec![3.0, -1.0, 4.0]);
}

#[test]
fn multiply_is_the_convolution() {
    let p = poly(&[1.0, 2.0]);
    let q = poly(&[1.0, 2.0, 3.0]);
    assert_eq!(multiply(&p, &q).coefs, vec![1.0, 4.0, 7.0, 6.0]);
}

#[test]
fn multiply_by_constant_polynomial() {
    let p = poly(&[2.0]);
    let q = poly(&[1.0, -1.0]);
    assert_eq!(multiply(&p, &q).coefs, vec![2.0, -2.0]);
}

#[test]
fn scalar_dot_scales_every_coefficient() {
    let p = poly(&[1.0, 2.0, -3.0]);
    let s = p.scalar_dot(|c: f32| c * 2.0);
    assert_eq!(s.coefs, vec![2.0, 4.0, -6.0]);
}

#[test]
fn derivative_of_constant_is_zero_polynomial() {
    let p = poly(&[5.0]);
    assert_eq!(derivative(&p).coefs, vec![0.0]);
}

#[test]
fn derivative_of_empty_is_zero_polynomial() {
    let p = poly(&[]);
    assert_eq!(derivative(&p).coefs, vec![0.0]);
}

#[test]
fn derivative_drops_constant_and_shifts_down() {
    let p = poly(&[1.0, 2.0, 3.0]);
    assert_eq!(derivative(&p).coefs, vec![2.0, 6.0]);
}

#[test]
fn primitive_prepends_zero_and_divides() {
    let p = poly(&[2.0, 9.0]);
    assert_eq!(primitive(&p).coefs, vec![0.0, 2.0, 4.5]);
}

#[test]
fn degree_of_empty_is_invalid_state() {
    let p = poly(&[]);
    assert_eq!(p.get_degre(), Err(PolynomeError::InvalidState));
}

#[test]
fn degree_is_length_minus_one() {
    assert_eq!(poly(&[4.0]).get_degre(), Ok(0));
    assert_eq!(poly(&[1.0, 2.0, 1.0]).get_degre(), Ok(2));
    assert_eq!(poly(&[0.0, 0.0, 0.0, 0.0]).get_degre(), Ok(3));
}

#[test]
fn scalar_value_drives_scalar_dot() {
    let s = polynome::polynomial::Scalar { value: -1.5_f32 };
    let p = poly(&[2.0, -4.0]);
    let r = p.scalar_dot(move |c: f32| c * s.value);
    assert_eq!(r.coefs, vec![-3.0, 6.0]);
}
