use polynome::polynomial::Polynome;
use polynome::render::{decimal_string, Term};

fn term_of(c: f32) -> Term {
    Term {
        zero: c == 0.0,
        negative: !(c >= 0.0),
        unit: c.abs() == 1.0,
        signed_text: format!("{:.1}", c),
        magnitude_text: format!("{:.1}", c.abs()),
    }
}

fn render(coefs: &[f32]) -> String {
    let terms: Vec<Term> = coefs.iter().map(|&c| term_of(c)).collect();
    Polynome::new(terms).render()
}

#[test]
fn renders_monic_quadratic() {
    assert_eq!(render(&[1.0, 2.0, 1.0]), "1.0 + 2.0*X + X^2");
}

#[test]
fn renders_all_zero_as_zero() {
    assert_eq!(render(&[0.0, 0.0]), "0");
}

#[test]
fn renders_empty_as_zero() {
    assert_eq!(render(&[]), "0");
}

#[test]
fn renders_negative_terms() {
    assert_eq!(render(&[-1.0, -1.0]), "-1.0 - X");
}

#[test]
fn strips_leading_plus_of_first_surviving_term() {
    assert_eq!(render(&[0.0, 2.0]), "2.0*X");
    assert_eq!(render(&[0.0, 0.0, 1.0]), "X^2");
}

#[test]
fn keeps_leading_minus_of_first_surviving_term() {
    assert_eq!(render(&[0.0, -1.0, 0.0, -2.5]), "- X - 2.5*X^3");
}

#[test]
fn renders_non_unit_high_degrees() {
    assert_eq!(render(&[0.5, 0.0, -3.0, 4.0]), "0.5 - 3.0*X^2 + 4.0*X^3");
}

#[test]
fn renders_two_digit_exponents() {
    let mut coefs = vec![0.0; 11];
    coefs[10] = 2.0;
    assert_eq!(render(&coefs), "2.0*X^10");
}

#[test]
fn decimal_string_renders_base_ten() {
    assert_eq!(decimal_string(0), "0");
    assert_eq!(decimal_string(7), "7");
    assert_eq!(decimal_string(42), "42");
    assert_eq!(decimal_string(907), "907");
    assert_eq!(decimal_string(120034), "120034");
}
