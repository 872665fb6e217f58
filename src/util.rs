//! Small helpers and vocabulary shared by the algebraic types.
use crate::gf2::Gf2;
use crate::poly::Polynomial;
use core::cmp::Ordering;
use vstd::prelude::*;
use vstd::std_specs::cmp::PartialOrdSpec;
use vstd::std_specs::ops::SubSpec;

verus! {

/// The size of a set: finite with a count, or infinite, countably or not.
#[derive(Clone, Copy, Debug, PartialEq, Eq, Structural)]
pub enum SetSize {
    Finite(u64),
    CountablyInfinite,
    UncountablyInfinite,
}

/// A value with a canonical form that `normalize` puts it in.
pub trait Normal {
    fn normalize(&mut self);
}

/// Over the two-element field every coefficient is valid, so every
/// polynomial can be normalized.
impl Normal for Polynomial<Gf2> {
    /// See `Polynomial::normalize`.
    fn normalize(&mut self) {
        Polynomial::normalize(self)
    }
}

/// Marks an operation as commutative.
pub trait Commutative {
}

/// Marks an operation as associative.
pub trait Associative {
}

/// Marks multiplication as distributing over addition from the left.
pub trait LeftDistributive {
}

/// Marks multiplication as distributing over addition from the right.
pub trait RightDistributive {
}

/// Marks multiplication as distributing over addition from both sides.
pub trait Distributive {
}

impl Commutative for Gf2 {
}

impl Associative for Gf2 {
}

impl LeftDistributive for Gf2 {
}

impl RightDistributive for Gf2 {
}

impl Distributive for Gf2 {
}

/// `|x - y|`, computed as the larger minus the smaller.
pub fn abs_dist<T>(x: &T, y: &T) -> (r: T) where T: PartialOrd + core::ops::Sub<Output = T> + Copy
    requires
        T::obeys_partial_cmp_spec(),
        x.partial_cmp_spec(y) matches Some(Ordering::Greater | Ordering::Equal) ==> x.sub_req(*y),
        !(x.partial_cmp_spec(y) matches Some(Ordering::Greater | Ordering::Equal)) ==> y.sub_req(
            *x,
        ),
    ensures
        T::obeys_sub_spec() ==> r == if x.partial_cmp_spec(y) matches Some(
            Ordering::Greater | Ordering::Equal,
        ) {
            x.sub_spec(*y)
        } else {
            y.sub_spec(*x)
        },
{
    if *x >= *y {
        *x - *y
    } else {
        *y - *x
    }
}

/// The error of parsing a polynomial from text, which is not supported.
#[derive(Clone, Copy, Debug, PartialEq, Eq, Structural)]
pub enum ParsePolyErr {
    ParseErr,
}

/// The result of the extended Euclidean algorithm: `gcd == x * a + y * b`.
#[derive(Clone, Copy, Debug, PartialEq, Eq)]
pub struct ExtendedGcd<A> {
    pub gcd: A,
    pub x: A,
    pub y: A,
}

} // verus!
