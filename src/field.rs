//! The operations that a polynomial needs from its coefficients.
use vstd::prelude::*;

verus! {

/// A scalar type that polynomials can use as coefficients.
///
/// Each operation is described by a spec function; the exec methods are
/// bound to them. `fvalid` names the values that an implementation
/// produces and accepts (for instance a fraction in lowest terms).
pub trait Field: Sized + Clone {
    /// The values on which the operations below are specified.
    spec fn fvalid(a: Self) -> bool;

    /// The additive identity.
    spec fn fzero() -> Self;

    /// The multiplicative identity.
    spec fn fone() -> Self;

    spec fn fadd(a: Self, b: Self) -> Self;

    spec fn fsub(a: Self, b: Self) -> Self;

    spec fn fneg(a: Self) -> Self;

    spec fn fmul(a: Self, b: Self) -> Self;

    spec fn fdiv(a: Self, b: Self) -> Self;

    /// How a value is written.
    spec fn ftext(a: Self) -> Seq<char>;

    /// What `eq_el` answers; on valid values it is `==`.
    spec fn fsame(a: Self, b: Self) -> bool;

    fn zero_el() -> (r: Self)
        ensures
            r == Self::fzero(),
            Self::fvalid(r),
    ;

    fn one_el() -> (r: Self)
        ensures
            r == Self::fone(),
            Self::fvalid(r),
    ;

    fn add_el(&self, rhs: &Self) -> (r: Self)
        requires
            Self::fvalid(*self),
            Self::fvalid(*rhs),
        ensures
            r == Self::fadd(*self, *rhs),
            Self::fvalid(r),
    ;

    fn sub_el(&self, rhs: &Self) -> (r: Self)
        requires
            Self::fvalid(*self),
            Self::fvalid(*rhs),
        ensures
            r == Self::fsub(*self, *rhs),
            Self::fvalid(r),
    ;

    fn neg_el(&self) -> (r: Self)
        requires
            Self::fvalid(*self),
        ensures
            r == Self::fneg(*self),
            Self::fvalid(r),
    ;

    fn mul_el(&self, rhs: &Self) -> (r: Self)
        requires
            Self::fvalid(*self),
            Self::fvalid(*rhs),
        ensures
            r == Self::fmul(*self, *rhs),
            Self::fvalid(r),
    ;

    fn div_el(&self, rhs: &Self) -> (r: Self)
        requires
            Self::fvalid(*self),
            Self::fvalid(*rhs),
            *rhs != Self::fzero(),
        ensures
            r == Self::fdiv(*self, *rhs),
            Self::fvalid(r),
    ;

    fn eq_el(&self, rhs: &Self) -> (r: bool)
        requires
            Self::fvalid(*self),
            Self::fvalid(*rhs),
        ensures
            r == Self::fsame(*self, *rhs),
            r == (*self == *rhs),
    ;

    fn clone_el(&self) -> (r: Self)
        ensures
            r == *self,
    ;

    fn to_text(&self) -> (r: String)
        requires
            Self::fvalid(*self),
        ensures
            r@ == Self::ftext(*self),
    ;

    /// Exact division with remainder; in a field the remainder is zero.
    fn div_mod(&self, rhs: &Self) -> (r: (Self, Self))
        requires
            Self::fvalid(*self),
            Self::fvalid(*rhs),
            *rhs != Self::fzero(),
        ensures
            r.0 == Self::fdiv(*self, *rhs),
            r.1 == Self::fzero(),
            Self::fvalid(r.0),
            Self::fvalid(r.1),
    {
        (self.div_el(rhs), Self::zero_el())
    }

    /// The quotient of `div_mod`.
    fn div(&self, rhs: &Self) -> (r: Self)
        requires
            Self::fvalid(*self),
            Self::fvalid(*rhs),
            *rhs != Self::fzero(),
        ensures
            r == Self::fdiv(*self, *rhs),
            Self::fvalid(r),
    {
        self.div_mod(rhs).0
    }

    /// The remainder of `div_mod`.
    fn modulo(&self, rhs: &Self) -> (r: Self)
        requires
            Self::fvalid(*self),
            Self::fvalid(*rhs),
            *rhs != Self::fzero(),
        ensures
            r == Self::fzero(),
            Self::fvalid(r),
    {
        self.div_mod(rhs).1
    }

    fn additive_inv(&self) -> (r: Self)
        requires
            Self::fvalid(*self),
        ensures
            r == Self::fneg(*self),
            Self::fvalid(r),
    {
        self.neg_el()
    }

    /// `one / self`, or `None` for zero, which has no inverse.
    fn multiplicative_inv(&self) -> (r: Option<Self>)
        requires
            Self::fvalid(*self),
        ensures
            *self == Self::fzero() <==> r is None,
            r matches Some(v) ==> v == Self::fdiv(Self::fone(), *self) && Self::fvalid(v),
    {
        let z = Self::zero_el();
        if self.eq_el(&z) {
            None
        } else {
            Some(Self::one_el().div_el(self))
        }
    }

    /// Walks the additive structure from this value.
    fn additive_iter(self) -> (r: AdditiveIter<Self>)
        ensures
            r.item == self,
    {
        AdditiveIter { item: self }
    }

    /// Walks the multiplicative structure from this value.
    fn multiplicative_iter(self) -> (r: MultiplicativeIter<Self>)
        ensures
            r.item == self,
    {
        MultiplicativeIter { item: self }
    }
}

/// The laws that make a `Field` a field. An implementation proves each one.
pub trait FieldLaws: Field {
    proof fn law_valid_closed(a: Self, b: Self)
        ensures
            Self::fvalid(Self::fzero()),
            Self::fvalid(Self::fone()),
            Self::fvalid(a) && Self::fvalid(b) ==> Self::fvalid(Self::fadd(a, b)),
            Self::fvalid(a) && Self::fvalid(b) ==> Self::fvalid(Self::fmul(a, b)),
            Self::fvalid(a) ==> Self::fvalid(Self::fneg(a)),
    ;

    proof fn law_add_assoc(a: Self, b: Self, c: Self)
        ensures
            Self::fadd(Self::fadd(a, b), c) == Self::fadd(a, Self::fadd(b, c)),
    ;

    proof fn law_add_comm(a: Self, b: Self)
        ensures
            Self::fadd(a, b) == Self::fadd(b, a),
    ;

    proof fn law_add_zero(a: Self)
        ensures
            Self::fadd(a, Self::fzero()) == a,
    ;

    proof fn law_add_neg(a: Self)
        ensures
            Self::fadd(a, Self::fneg(a)) == Self::fzero(),
    ;

    proof fn law_sub(a: Self, b: Self)
        ensures
            Self::fsub(a, b) == Self::fadd(a, Self::fneg(b)),
    ;

    proof fn law_mul_assoc(a: Self, b: Self, c: Self)
        ensures
            Self::fmul(Self::fmul(a, b), c) == Self::fmul(a, Self::fmul(b, c)),
    ;

    proof fn law_mul_comm(a: Self, b: Self)
        ensures
            Self::fmul(a, b) == Self::fmul(b, a),
    ;

    proof fn law_mul_one(a: Self)
        ensures
            Self::fmul(a, Self::fone()) == a,
    ;

    proof fn law_distrib(a: Self, b: Self, c: Self)
        ensures
            Self::fmul(a, Self::fadd(b, c)) == Self::fadd(Self::fmul(a, b), Self::fmul(a, c)),
    ;

    proof fn law_div(a: Self, b: Self)
        requires
            b != Self::fzero(),
        ensures
            Self::fmul(Self::fdiv(a, b), b) == a,
    ;

    proof fn law_nontrivial()
        ensures
            Self::fone() != Self::fzero(),
    ;
}

/// Repeated self-addition, stopping at zero.
pub struct AdditiveIter<F> {
    pub item: F,
}

impl<F: Field> AdditiveIter<F> {
    pub fn next(&mut self) -> (r: Option<F>)
        requires
            F::fvalid(old(self).item),
        ensures
            *final(self) == *old(self),
            old(self).item == F::fzero() <==> r is None,
            r matches Some(v) ==> v == F::fadd(old(self).item, old(self).item),
    {
        let z = F::zero_el();
        if self.item.eq_el(&z) {
            None
        } else {
            Some(self.item.add_el(&self.item))
        }
    }
}

/// Repeated self-multiplication, stopping at one.
pub struct MultiplicativeIter<F> {
    pub item: F,
}

impl<F: Field> MultiplicativeIter<F> {
    pub fn next(&mut self) -> (r: Option<F>)
        requires
            F::fvalid(old(self).item),
        ensures
            *final(self) == *old(self),
            old(self).item == F::fone() <==> r is None,
            r matches Some(v) ==> v == F::fmul(old(self).item, old(self).item),
    {
        let one = F::one_el();
        if self.item.eq_el(&one) {
            None
        } else {
            Some(self.item.mul_el(&self.item))
        }
    }
}

/// A field with finitely many elements.
pub trait FiniteField: Field {
    /// The number of elements, as a value of the field.
    fn order_el() -> Self;
}

} // verus!
