use num::bigint::BigInt;
use num::rational::Ratio;
use polydiv::poly::Polynomial;

type Q = Ratio<BigInt>;

fn q(n: i64) -> Q {
    Ratio::from_integer(BigInt::from(n))
}

fn qs(ns: &[i64]) -> Vec<Q> {
    ns.iter().map(|&n| q(n)).collect()
}

#[test]
fn new_poly() {
    assert_eq!(Polynomial::<Q>::new().coefs, Vec::<Q>::new());
    assert_eq!(Polynomial::<Q>::with_capacity(10).coefs, Vec::<Q>::new());
    assert_eq!(Polynomial::from_vec(qs(&[1, 2, 3]), 0).coefs, qs(&[1, 2, 3]));
    assert!(Polynomial::<Q>::new().equals(&Polynomial::<Q>::with_capacity(100)));
    assert!(Polynomial::<Q>::zero().equals(&Polynomial::from_vec(qs(&[0, 0, 0]), 15)));
    assert!(Polynomial::<Q>::one().equals(&Polynomial::from_vec(qs(&[0, 0, 1]), -2)));
}

#[test]
fn display() {
    let p = Polynomial::<Q>::new();
    assert_eq!(p.to_text(), "0");

    let p = Polynomial::from_vec(qs(&[1, 2, 3, 4, 5, 6]), -2);
    assert_eq!(p.to_text(), "6x^3 + 5x^2 + 4x + 3 + 2x^(-1) + x^(-2)");

    let p = Polynomial::from_vec(qs(&[7, 2, 0, 88, -3, 0]), -1);
    assert_eq!(p.to_text(), "-3x^3 + 88x^2 + 2 + 7x^(-1)");
    assert_eq!(p.degree(), 3);

    let p = Polynomial::from_vec(qs(&[2, -37]), 5);
    assert_eq!(p.to_text(), "-37x^6 + 2x^5");

    let p = Polynomial::from_vec(qs(&[2, -37, -4]), -17);
    // Coefficients are written with their own sign: the field has no order.
    assert_eq!(p.to_text(), "-4x^(-15) + -37x^(-16) + 2x^(-17)");
    assert_eq!(p.degree(), -15);
}

#[test]
fn getters() {
    let mut p = Polynomial::from_vec(qs(&[1, 2, 3]), -2);
    assert_eq!(p.len(), 3);
    assert_eq!(*p.get(0).unwrap(), q(3));
    assert_eq!(*p.get_at(1).unwrap(), q(2));

    let coef = p.get_mut(-1).unwrap();
    *coef += BigInt::from(10);
    assert_eq!(*p.get(-1).unwrap(), q(12));

    *p.get_at_mut(0).unwrap() *= BigInt::from(10);
    assert_eq!(*p.get_at(0).unwrap(), Ratio::new(BigInt::from(10), BigInt::from(1)));
    assert_eq!(*p.get(-2).unwrap(), *p.get_at(0).unwrap());

    let p1 = Polynomial::from_vec(qs(&[3, 5]), 1);
    let mut p2 = Polynomial::from_vec(qs(&[3, 5, 0]), -1);
    p2.shl(2);
    assert!(p1.equals(&p2));
    p2.shr_lossles(1);
    assert!(!p1.equals(&p2));
}

#[test]
fn shift() {
    let mut p = Polynomial::from_vec(qs(&[1, 2, 3]), 0);
    p.shl(4);
    *p.get_mut(3).unwrap() += BigInt::from(3);
    *p.get_mut(2).unwrap() *= BigInt::from(3);
    println!("{:?}", p.coefs);
    assert_eq!(*p.get(0).unwrap(), q(0));
    assert_eq!(*p.get(2).unwrap(), q(0));
    assert_eq!(*p.get(3).unwrap(), q(3));
    assert_eq!(p.len(), 7);
    p.shr_lossy(5);
    assert_eq!(p.len(), 2);
    assert_eq!(*p.get(0).unwrap(), q(2));
}

#[test]
fn ops() {
    let mut p1 = Polynomial::new();
    let mut p2 = Polynomial::with_capacity(10);
    let mut p3 = p1.simple_mul(q(2), 3);

    // Set
    p1.set(0, 0, qs(&[3, 5, 0, 7, 0]));
    p1.normalize();
    assert_eq!(p1.to_text(), "7x^3 + 5x + 3");
    assert_eq!(p1.degree(), 3);

    // Shift & simple mul
    assert_eq!(p2.len(), 0);
    p2.shl_with(2, q(1));
    p2.simple_mul_mut(q(3), 0);
    assert_eq!(p2.len(), 2);
    assert_eq!(p2.to_text(), "3x + 3");
    assert_eq!(p2.init_pow(), 0);
    p2.simple_mul_mut(q(5), 2);
    assert_eq!(p2.init_pow(), 2);
    assert_eq!(p2.len(), 4);
    assert_eq!(p2.to_text(), "15x^3 + 15x^2");

    // normalize
    p3.normalize();
    assert_eq!(p3.len(), 0);
    assert_eq!(p3.to_text(), "0");

    assert_eq!(p1.to_text(), "7x^3 + 5x + 3");
    assert_eq!(p2.to_text(), "15x^3 + 15x^2");
    // Add
    assert_eq!((p1.clone() + p2.clone()).to_text(), "22x^3 + 15x^2 + 5x + 3");

    // Sub
    assert_eq!(
        (p1.clone() + Polynomial::from_vec(qs(&[8]), 3) - p2.clone()).to_text(),
        "-15x^2 + 5x + 3"
    );

    // Mul
    assert_eq!(
        (p1.clone() * p2.clone()).to_text(),
        "105x^6 + 105x^5 + 75x^4 + 120x^3 + 45x^2"
    );
    assert_eq!((p1.clone() * p3.clone()).to_text(), "0");
    assert_eq!((p3.clone() * p1.clone()).to_text(), "0");

    // Div
    assert_eq!(p1.simple_div(q(2), 2).to_text(), "7/2x + 5/2x^(-1) + 3/2x^(-2)");
    assert_eq!((p1.clone() / p1.clone()).to_text(), "1");
}

#[test]
fn div1() {
    let p1 = Polynomial::from_vec(qs(&[15, 8, 1]), 0);
    let p2 = Polynomial::from_vec(qs(&[5, 1]), 0);
    let quot = Polynomial::from_vec(qs(&[3, 1]), 0);
    let rem = Polynomial::zero();
    let (q_got, r_got) = p1.div_mod(&p2);
    assert!(q_got.equals(&quot) && r_got.equals(&rem));
}

#[test]
fn div2() {
    let p1 = Polynomial::from_vec(qs(&[8, 10, 7, 2]), 0);
    let p2 = Polynomial::from_vec(qs(&[2, 1]), 0);
    let quot = Polynomial::from_vec(qs(&[4, 3, 2]), 0);
    let rem = Polynomial::zero();
    let (q_got, r_got) = p1.div_mod(&p2);
    assert!(q_got.equals(&quot) && r_got.equals(&rem));
}

#[test]
fn div3() {
    let p1 = Polynomial::from_vec(qs(&[6, -3, 1]), 0);
    let p2 = Polynomial::from_vec(qs(&[2, 1]), 0);
    let quot = Polynomial::from_vec(qs(&[-5, 1]), 0);
    let rem = Polynomial::from_vec(qs(&[16]), 0);
    let (q_got, r_got) = p1.div_mod(&p2);
    assert!(q_got.equals(&quot) && r_got.equals(&rem));
}

#[test]
fn div4() {
    let p1 = Polynomial::from_vec(qs(&[-4, -2, 4, 2]), 0);
    let p2 = Polynomial::from_vec(qs(&[-1, 1]), 0);
    let quot = Polynomial::from_vec(qs(&[4, 6, 2]), 0);
    let rem = Polynomial::zero();
    let (q_got, r_got) = p1.div_mod(&p2);
    assert!(q_got.equals(&quot) && r_got.equals(&rem));
}

#[test]
fn inv() {
    let polys = [
        Polynomial::from_vec(qs(&[-4, -2, 4, 2]), 0),
        Polynomial::from_vec(qs(&[-1, 1]), 0),
        Polynomial::from_vec(qs(&[4, 6, 2]), 0),
        Polynomial::from_vec(qs(&[6, -3, 1]), 0),
        Polynomial::from_vec(qs(&[15, 8, 1]), 0),
        Polynomial::from_vec(qs(&[2, -37, -4]), -17),
        Polynomial::from_vec(qs(&[2, -37]), 5),
        Polynomial::from_vec(qs(&[7, 2, 0, 88, -3, 0]), -1),
        Polynomial::from_vec(qs(&[1, 2, 3, 4, 5, 6]), -2),
    ];

    for p in polys {
        let ai = Polynomial::zero() - p.clone();
        println!("{}  ->  {}", p.to_text(), ai.to_text());
        // The additive inverse sums with `p` to the zero polynomial.
        let mut s = ai + p.clone();
        s.normalize();
        assert!(s.equals(&Polynomial::zero()));
        assert_eq!(s.len(), 0);
    }
}
