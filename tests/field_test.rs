use num::bigint::BigInt;
use num::rational::Ratio;
use polydiv::field::{AdditiveIter, Field, MultiplicativeIter};
use polydiv::gf2::Gf2;
use polydiv::natural::Natural;
use polydiv::poly::Polynomial;
use polydiv::util::{abs_dist, Normal, SetSize};

type Q = Ratio<BigInt>;

fn q(n: i64) -> Q {
    Ratio::from_integer(BigInt::from(n))
}

fn g(bits: &[u8], init_pow: isize) -> Polynomial<Gf2> {
    Polynomial::from_vec(bits.iter().map(|&b| Gf2::new(b == 1)).collect(), init_pow)
}

#[test]
fn gf2_arithmetic() {
    let one = Gf2::one_el();
    let zero = Gf2::zero_el();
    assert_eq!(one.add_el(&one), zero);
    assert_eq!(one.mul_el(&zero), zero);
    assert_eq!(one.neg_el(), one);
    assert_eq!(one.div_el(&one), one);
    assert_eq!(zero.to_text(), "0");
    assert_eq!(one.to_text(), "1");
    assert_eq!(zero.multiplicative_inv(), None);
    assert_eq!(one.multiplicative_inv(), Some(one));
}

#[test]
fn gf2_polynomials() {
    // (x + 1)^2 == x^2 + 1 in characteristic 2.
    let p = g(&[1, 1], 0);
    assert_eq!((p.clone() * p.clone()).to_text(), "x^2 + 1");
    let (quot, rem) = g(&[1, 0, 1], 0).div_mod(&p);
    assert_eq!(quot.to_text(), "x + 1");
    assert_eq!(rem.to_text(), "0");
    assert_eq!((p.clone() + p).len(), 0);
    assert_eq!(g(&[1, 1, 0, 1], -1).to_text(), "x^2 + 1 + x^(-1)");
}

#[test]
fn rational_field_operations() {
    let a = Ratio::new(BigInt::from(1), BigInt::from(2));
    let b = q(3);
    assert_eq!(a.add_el(&b), Ratio::new(BigInt::from(7), BigInt::from(2)));
    assert_eq!(a.sub_el(&b), Ratio::new(BigInt::from(-5), BigInt::from(2)));
    assert_eq!(a.mul_el(&b), Ratio::new(BigInt::from(3), BigInt::from(2)));
    assert_eq!(a.div_el(&b), Ratio::new(BigInt::from(1), BigInt::from(6)));
    assert_eq!(a.neg_el(), Ratio::new(BigInt::from(-1), BigInt::from(2)));
    assert!(a.eq_el(&a.clone_el()));
    assert!(!a.eq_el(&b));
    assert_eq!(a.to_text(), "1/2");
    assert_eq!(Q::zero_el(), q(0));
    assert_eq!(Q::one_el(), q(1));
    let (d, m) = b.div_mod(&a);
    assert_eq!(d, q(6));
    assert_eq!(m, q(0));
    assert_eq!(b.div(&a), q(6));
    assert_eq!(b.modulo(&a), q(0));
    assert_eq!(b.additive_inv(), q(-3));
    assert_eq!(q(0).multiplicative_inv(), None);
    assert_eq!(b.multiplicative_inv(), Some(Ratio::new(BigInt::from(1), BigInt::from(3))));
}

#[test]
fn iterators_over_a_value() {
    let mut it = q(3).additive_iter();
    assert_eq!(it.next(), Some(q(6)));
    let mut z = q(0).additive_iter();
    assert_eq!(z.next(), None);
    let mut m = q(3).multiplicative_iter();
    assert_eq!(m.next(), Some(q(9)));
    let mut u = MultiplicativeIter { item: q(1) };
    assert_eq!(u.next(), None);
    let mut a = AdditiveIter { item: Gf2::new(true) };
    assert_eq!(a.next(), Some(Gf2::new(false)));
}

#[test]
fn abs_dist_both_orders() {
    assert_eq!(abs_dist(&3u32, &10u32), 7);
    assert_eq!(abs_dist(&10i64, &-3i64), 13);
    assert_eq!(abs_dist(&5u8, &5u8), 0);
}

#[test]
fn naturals() {
    assert_eq!(Natural(2) + Natural(3), Natural(5));
    assert_eq!(Natural(2) * Natural(3), Natural(6));
    assert_eq!(Natural(2) - Natural(3), None);
    assert_eq!(Natural(3) - Natural(2), Some(Natural(1)));
    let mut n = Natural(4);
    n.add_assign(Natural(1));
    n.mul_assign(Natural(2));
    assert_eq!(n, Natural(10));
    assert_eq!(n.next(), Some(Natural(11)));
    assert_eq!(Natural(u64::MAX).next(), None);
    assert_eq!(n.size(), SetSize::CountablyInfinite);
}

#[test]
fn normal_trait_normalizes() {
    let (o, l) = (Gf2::new(false), Gf2::new(true));
    let mut p = Polynomial { coefs: vec![o, l, o], zero_pow_idx: 1 };
    Normal::normalize(&mut p);
    assert_eq!(p.coefs, vec![l]);
    assert_eq!(p.zero_pow_idx, 0);
}

#[test]
fn gf2_polynomial_equality() {
    let p = g(&[1, 1, 0], -1);
    assert_eq!(p, Polynomial { coefs: vec![Gf2::new(true), Gf2::new(true)], zero_pow_idx: 1 });
    assert_ne!(p, g(&[1, 1], 0));
}

#[test]
fn integer_text() {
    assert_eq!(q(-42).to_text(), "-42");
    assert_eq!(Q::one_el().to_text(), "1");
}

#[test]
fn parsing_is_refused() {
    let r = Polynomial::<Q>::from_str_radix("x + 1", 10);
    assert!(matches!(r, Err(polydiv::util::ParsePolyErr::ParseErr)));
}
