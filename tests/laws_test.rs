use num::bigint::BigInt;
use num::rational::Ratio;
use polydiv::poly::Polynomial;

type Q = Ratio<BigInt>;

fn q(n: i64) -> Q {
    Ratio::from_integer(BigInt::from(n))
}

fn poly(ns: &[i64], init_pow: isize) -> Polynomial<Q> {
    Polynomial::from_vec(ns.iter().map(|&n| q(n)).collect(), init_pow)
}

fn samples() -> Vec<Polynomial<Q>> {
    vec![
        poly(&[-4, -2, 4, 2], 0),
        poly(&[-1, 1], 0),
        poly(&[6, -3, 1], 0),
        poly(&[2, -37, -4], -17),
        poly(&[2, -37], 5),
        poly(&[7, 2, 0, 88, -3, 0], -1),
        poly(&[1, 2, 3, 4, 5, 6], -2),
        poly(&[0, 3, 0], -4),
    ]
}

#[test]
fn normalize_twice_is_normalize_once() {
    let mut p = Polynomial { coefs: vec![q(0), q(0), q(1), q(0), q(2), q(0), q(0)], zero_pow_idx: 3 };
    p.normalize();
    let once = p.clone();
    p.normalize();
    assert_eq!(p.coefs, once.coefs);
    assert_eq!(p.zero_pow_idx, once.zero_pow_idx);
    assert_eq!(once.coefs, vec![q(1), q(0), q(2)]);
    assert_eq!(once.zero_pow_idx, 1);
}

#[test]
fn normalize_keeps_low_zeros_at_nonnegative_exponents() {
    let mut p = Polynomial { coefs: vec![q(0), q(0), q(5), q(0)], zero_pow_idx: 0 };
    p.normalize();
    assert_eq!(p.coefs, vec![q(0), q(0), q(5)]);
    assert_eq!(p.zero_pow_idx, 0);
    assert_eq!(p.to_text(), "5x^2");
}

#[test]
fn normalize_all_zero_is_empty() {
    let mut p = Polynomial { coefs: vec![q(0), q(0)], zero_pow_idx: 7 };
    p.normalize();
    assert_eq!(p.len(), 0);
    assert_eq!(p.zero_pow_idx, 0);
    assert_eq!(p.degree(), -1);
}

#[test]
fn sum_with_negation_is_zero() {
    for p in samples() {
        let s = p.clone() + (-p.clone());
        assert_eq!(s.len(), 0);
        assert!(s.equals(&Polynomial::zero()));
    }
}

#[test]
fn negation_text() {
    let p = poly(&[1, -2, 3], -1);
    assert_eq!((-p).to_text(), "-3x + 2 + -1x^(-1)");
}

#[test]
fn division_reassembles_numerator() {
    let divisors = vec![
        poly(&[5, 1], 0),
        poly(&[2, 1], 0),
        poly(&[-1, 0, 3], 0),
        poly(&[3, 0, 2], -1),
        poly(&[7], -2),
    ];
    for p in samples() {
        for d in &divisors {
            let (quot, rem) = p.div_mod(d);
            let back = d.clone() * quot.clone() + rem.clone();
            assert!(back.equals(&p), "{} / {}", p.to_text(), d.to_text());
            if rem.len() > 0 {
                assert!(rem.degree() < d.degree());
            }
        }
    }
}

#[test]
fn division_when_cancellation_skips_a_degree() {
    // (x^2 + 1) / x: the first step clears x^1 as well.
    let p = poly(&[1, 0, 1], 0);
    let d = poly(&[0, 1], 0);
    let (quot, rem) = p.div_mod(&d);
    assert!(quot.equals(&poly(&[0, 1], 0)));
    assert!(rem.equals(&poly(&[1], 0)));
    // x^2 / x leaves an empty numerator before the last step.
    let (quot, rem) = poly(&[0, 0, 1], 0).div_mod(&d);
    assert_eq!(quot.to_text(), "x");
    assert_eq!(rem.to_text(), "0");
}

#[test]
fn division_by_higher_degree() {
    let p = poly(&[1, 2], 0);
    let d = poly(&[1, 0, 1], 0);
    let (quot, rem) = p.div_mod(&d);
    assert_eq!(quot.len(), 0);
    assert!(rem.equals(&p));
    assert_eq!((p.clone() % d.clone()).to_text(), "2x + 1");
}

#[test]
fn times_one_and_self_division() {
    for p in samples() {
        assert!((p.clone() * Polynomial::one()).equals(&p));
        let quot = p.clone() / p.clone();
        assert_eq!(quot.coefs, vec![q(1)]);
        assert_eq!(quot.zero_pow_idx, 0);
        assert_eq!(quot.to_text(), "1");
    }
}

#[test]
fn shift_round_trip() {
    let p = poly(&[4, 0, 9], -1);
    let mut r = p.clone();
    r.shr_lossles(3);
    r.extend_right(3);
    assert_eq!(r.coefs[3..].to_vec(), p.coefs);
    assert_eq!(r.zero_pow_idx, p.zero_pow_idx + 6);
    for e in -10..10 {
        assert_eq!(r.get(e - 3).cloned().unwrap_or(q(0)), p.get(e).cloned().unwrap_or(q(0)));
    }
}

#[test]
fn scenario_display_and_degree() {
    let p = poly(&[1, 2, 3, 4, 5, 6], -2);
    assert_eq!(p.to_text(), "6x^3 + 5x^2 + 4x + 3 + 2x^(-1) + x^(-2)");
    assert_eq!(p.degree(), 3);
}

#[test]
fn scenario_exact_division() {
    let (quot, rem) = poly(&[15, 8, 1], 0).div_mod(&poly(&[5, 1], 0));
    assert!(quot.equals(&poly(&[3, 1], 0)));
    assert!(rem.equals(&Polynomial::zero()));
}

#[test]
fn scenario_division_with_remainder() {
    let (quot, rem) = poly(&[6, -3, 1], 0).div_mod(&poly(&[2, 1], 0));
    assert!(quot.equals(&poly(&[-5, 1], 0)));
    assert!(rem.equals(&poly(&[16], 0)));
}

#[test]
fn scenario_normalize_trailing_zero() {
    let mut p = Polynomial { coefs: vec![q(3), q(5), q(0), q(7), q(0)], zero_pow_idx: 0 };
    p.normalize();
    assert_eq!(p.to_text(), "7x^3 + 5x + 3");
    assert_eq!(p.degree(), 3);
    assert_eq!(poly(&[3, 5, 0, 7, 0], 0).to_text(), "7x^3 + 5x + 3");
}

#[test]
fn scenario_times_zero_coefficients() {
    for start in [-3, 0, 4] {
        let p = poly(&[1, 2, 3], 0) * poly(&[0, 0, 0], start);
        assert_eq!(p.to_text(), "0");
        assert_eq!(p.len(), 0);
    }
    let mut raw = poly(&[1, 2, 3], 0);
    raw.mul_assign(Polynomial { coefs: vec![q(0), q(0)], zero_pow_idx: 1 });
    assert_eq!(raw.to_text(), "0");
}

#[test]
fn scenario_self_division_is_one() {
    let p = poly(&[7, 2, 0, 88, -3, 0], -1);
    assert_eq!((p.clone() / p).to_text(), "1");
}

#[test]
fn laurent_product() {
    // (x + x^(-1)) * (x - x^(-1)) == x^2 - x^(-2)
    let a = poly(&[1, 0, 1], -1);
    let b = poly(&[-1, 0, 1], -1);
    assert_eq!((a * b).to_text(), "x^2 + -1x^(-2)");
}

#[test]
fn negative_power_term_multiplies() {
    // 1 * 2x^(-1) == 2x^(-1), and 4 * 2x^(-1) == 8x^(-1).
    assert_eq!((poly(&[1], 0) * poly(&[2], -1)).to_text(), "2x^(-1)");
    assert_eq!((poly(&[4], 0) * poly(&[2], -1)).to_text(), "8x^(-1)");
    // (x + 3) * (2x^(-2) + 0x^(-1)) == 2x^(-1) + 6x^(-2)
    let b = Polynomial { coefs: vec![q(2), q(0)], zero_pow_idx: 2 };
    assert_eq!((poly(&[3, 1], 0) * b).to_text(), "2x^(-1) + 6x^(-2)");
}

#[test]
fn monomial_scale_both_signs() {
    let p = poly(&[1, 3], 0);
    assert_eq!(p.simple_mul(q(2), 2).to_text(), "6x^3 + 2x^2");
    assert_eq!(p.simple_mul(q(2), -2).to_text(), "6x^(-1) + 2x^(-2)");
    assert_eq!(p.simple_div(q(2), 1).to_text(), "3/2 + 1/2x^(-1)");
    assert_eq!(p.simple_div(q(2), -1).to_text(), "3/2x^2 + 1/2x");
}

#[test]
fn addition_commutes() {
    for a in samples() {
        for b in samples() {
            assert!((a.clone() + b.clone()).equals(&(b.clone() + a.clone())));
            assert_eq!((a.clone() + b.clone()).coefs, (b.clone() + a.clone()).coefs);
        }
    }
}

#[test]
fn sum_and_difference_over_disjoint_ranges() {
    let a = poly(&[1, 1], -3);
    let b = poly(&[2], 2);
    assert_eq!((a.clone() + b.clone()).to_text(), "2x^2 + x^(-2) + x^(-3)");
    assert_eq!((a - b).to_text(), "-2x^2 + x^(-2) + x^(-3)");
}

#[test]
fn set_and_insert() {
    let mut p = poly(&[1, 2, 3], -1);
    p.set(0, 5, vec![q(9)]);
    assert_eq!(p.coefs, vec![q(1), q(9)]);
    p.set(-10, -1, vec![q(4), q(5)]);
    assert_eq!(p.coefs, vec![q(4), q(5), q(1), q(9)]);
    p.insert(1, vec![q(0)]);
    assert_eq!(p.coefs, vec![q(4), q(0), q(5), q(1), q(9)]);
    p.insert_coef(5, q(6));
    assert_eq!(p.last(), Some(&q(6)));
    assert_eq!(p.first(), Some(&q(4)));
    p.set_at(0, 2, vec![]);
    assert_eq!(p.coefs, vec![q(5), q(1), q(9), q(6)]);
}

#[test]
fn align_covers_both_ranges() {
    let mut a = poly(&[1, 2, 3, 4], -3);
    let b = poly(&[5, 6, 7], 0);
    a.align_size_to(&b);
    assert_eq!(a.zero_pow_idx, 3);
    assert_eq!(a.degree(), 2);
    assert_eq!(a.coefs, vec![q(1), q(2), q(3), q(4), q(0), q(0)]);
    let mut c = poly(&[1], 0);
    c.align_size_to(&poly(&[1, 1], -1));
    assert_eq!(c.coefs, vec![q(0), q(1)]);
    assert_eq!(c.zero_pow_idx, 1);
}

#[test]
fn init_pow_and_stored_pow() {
    let p = Polynomial { coefs: vec![q(0), q(0), q(2), q(1)], zero_pow_idx: 1 };
    assert_eq!(p.init_pow(), 1);
    assert_eq!(p.init_stored_pow(), -1);
    assert_eq!(*p.zero_pow_idx(), 1);
    let z = Polynomial { coefs: vec![q(0)], zero_pow_idx: 0 };
    assert_eq!(z.init_pow(), 0);
    assert!(z.is_zero());
    assert!(!p.is_zero());
}

#[test]
fn lossy_shift_drops_low_terms() {
    let mut p = poly(&[1, 2, 3, 4], -2);
    p.shr_lossy(3);
    assert_eq!(p.coefs, vec![q(4)]);
    assert_eq!(p.zero_pow_idx, 0);
    let mut e = poly(&[1, 2], 0);
    e.shr_lossy(10);
    assert_eq!(e.len(), 0);
}
