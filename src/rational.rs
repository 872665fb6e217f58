//! Exact rational coefficients: num's `Ratio<BigInt>`, whose arithmetic
//! never overflows.
use crate::display::int_text;
use crate::field::Field;
use num::bigint::BigInt;
use num::rational::Ratio;
use vstd::prelude::*;

verus! {

#[verifier::external_type_specification]
#[verifier::external_body]
#[verifier::reject_recursive_types(T)]
pub struct ExRatio<T>(Ratio<T>);

#[verifier::external_type_specification]
#[verifier::external_body]
pub struct ExBigInt(BigInt);

/// The fraction is in lowest terms with a positive denominator, the form
/// in which num builds and returns every `Ratio`.
pub uninterp spec fn rat_reduced(a: Ratio<BigInt>) -> bool;

/// The fraction `n / 1`.
pub uninterp spec fn rat_int(n: int) -> Ratio<BigInt>;

/// The sum that num computes.
pub uninterp spec fn rat_sum(a: Ratio<BigInt>, b: Ratio<BigInt>) -> Ratio<BigInt>;

/// The difference that num computes.
pub uninterp spec fn rat_difference(a: Ratio<BigInt>, b: Ratio<BigInt>) -> Ratio<BigInt>;

/// The product that num computes.
pub uninterp spec fn rat_product(a: Ratio<BigInt>, b: Ratio<BigInt>) -> Ratio<BigInt>;

/// The quotient that num computes.
pub uninterp spec fn rat_quotient(a: Ratio<BigInt>, b: Ratio<BigInt>) -> Ratio<BigInt>;

/// The negation that num computes.
pub uninterp spec fn rat_negation(a: Ratio<BigInt>) -> Ratio<BigInt>;

/// What num's `==` answers: whether the two fractions have the same value.
pub uninterp spec fn rat_equal(a: Ratio<BigInt>, b: Ratio<BigInt>) -> bool;

/// The text that num's `Display` writes: `n` or `n/d`.
pub uninterp spec fn rat_text(a: Ratio<BigInt>) -> Seq<char>;

/// Relies on `Ratio::from_integer` (with `BigInt::from`): the fraction
/// `n / 1`, which is in lowest terms and, with its denominator one, is
/// written as the decimal digits of `n`.
#[verifier::external_body]
fn rat_from_i64(n: i64) -> (r: Ratio<BigInt>)
    ensures
        r == rat_int(n as int),
        rat_reduced(r),
        rat_text(r) == int_text(n as int),
{
    Ratio::from_integer(BigInt::from(n))
}

/// Relies on `Add` for `&Ratio`: it reduces its result with `Ratio::new`.
#[verifier::external_body]
fn rat_add(a: &Ratio<BigInt>, b: &Ratio<BigInt>) -> (r: Ratio<BigInt>)
    requires
        rat_reduced(*a),
        rat_reduced(*b),
    ensures
        r == rat_sum(*a, *b),
        rat_reduced(r),
{
    a + b
}

/// Relies on `Sub` for `&Ratio`: it reduces its result with `Ratio::new`.
#[verifier::external_body]
fn rat_sub(a: &Ratio<BigInt>, b: &Ratio<BigInt>) -> (r: Ratio<BigInt>)
    requires
        rat_reduced(*a),
        rat_reduced(*b),
    ensures
        r == rat_difference(*a, *b),
        rat_reduced(r),
{
    a - b
}

/// Relies on `Mul` for `&Ratio`: it reduces its result with `Ratio::new`.
#[verifier::external_body]
fn rat_mul(a: &Ratio<BigInt>, b: &Ratio<BigInt>) -> (r: Ratio<BigInt>)
    requires
        rat_reduced(*a),
        rat_reduced(*b),
    ensures
        r == rat_product(*a, *b),
        rat_reduced(r),
{
    a * b
}

/// Relies on `Div` for `&Ratio`: it reduces its result with `Ratio::new`,
/// which panics only for a zero divisor, excluded here.
#[verifier::external_body]
fn rat_div(a: &Ratio<BigInt>, b: &Ratio<BigInt>) -> (r: Ratio<BigInt>)
    requires
        rat_reduced(*a),
        rat_reduced(*b),
        *b != rat_int(0),
    ensures
        r == rat_quotient(*a, *b),
        rat_reduced(r),
{
    a / b
}

/// Relies on `Neg` for `&Ratio`: it negates the numerator and keeps the
/// denominator, so lowest terms are kept.
#[verifier::external_body]
fn rat_neg(a: &Ratio<BigInt>) -> (r: Ratio<BigInt>)
    ensures
        r == rat_negation(*a),
        rat_reduced(*a) ==> rat_reduced(r),
{
    -a
}

/// Relies on `PartialEq` for `Ratio`, which compares values: two fractions
/// in lowest terms with positive denominators have the same value exactly
/// when they are the same fraction.
#[verifier::external_body]
fn rat_eq(a: &Ratio<BigInt>, b: &Ratio<BigInt>) -> (r: bool)
    requires
        rat_reduced(*a),
        rat_reduced(*b),
    ensures
        r == rat_equal(*a, *b),
        r == (*a == *b),
{
    a == b
}

/// Relies on `Clone` for `Ratio`, which copies numerator and denominator.
#[verifier::external_body]
fn rat_clone(a: &Ratio<BigInt>) -> (r: Ratio<BigInt>)
    ensures
        r == *a,
{
    a.clone()
}

/// Relies on `Display` for `Ratio`.
#[verifier::external_body]
fn rat_to_string(a: &Ratio<BigInt>) -> (r: String)
    ensures
        r@ == rat_text(*a),
{
    format!("{}", a)
}

impl Field for Ratio<BigInt> {
    open spec fn fvalid(a: Self) -> bool {
        rat_reduced(a)
    }

    open spec fn fzero() -> Self {
        rat_int(0)
    }

    open spec fn fone() -> Self {
        rat_int(1)
    }

    open spec fn fadd(a: Self, b: Self) -> Self {
        rat_sum(a, b)
    }

    open spec fn fsub(a: Self, b: Self) -> Self {
        rat_difference(a, b)
    }

    open spec fn fneg(a: Self) -> Self {
        rat_negation(a)
    }

    open spec fn fmul(a: Self, b: Self) -> Self {
        rat_product(a, b)
    }

    open spec fn fdiv(a: Self, b: Self) -> Self {
        rat_quotient(a, b)
    }

    open spec fn ftext(a: Self) -> Seq<char> {
        rat_text(a)
    }

    open spec fn fsame(a: Self, b: Self) -> bool {
        rat_equal(a, b)
    }

    fn zero_el() -> (r: Self) {
        rat_from_i64(0)
    }

    fn one_el() -> (r: Self) {
        rat_from_i64(1)
    }

    fn add_el(&self, rhs: &Self) -> (r: Self) {
        rat_add(self, rhs)
    }

    fn sub_el(&self, rhs: &Self) -> (r: Self) {
        rat_sub(self, rhs)
    }

    fn neg_el(&self) -> (r: Self) {
        rat_neg(self)
    }

    fn mul_el(&self, rhs: &Self) -> (r: Self) {
        rat_mul(self, rhs)
    }

    fn div_el(&self, rhs: &Self) -> (r: Self) {
        rat_div(self, rhs)
    }

    fn eq_el(&self, rhs: &Self) -> (r: bool) {
        let r = rat_eq(self, rhs);
        assert(r == Self::fsame(*self, *rhs));
        r
    }

    fn clone_el(&self) -> (r: Self) {
        rat_clone(self)
    }

    fn to_text(&self) -> (r: String) {
        rat_to_string(self)
    }
}

} // verus!
