//! The arithmetic operators, each a call of a verified method
//! (`add_assign`, `sub_assign`, `mul_assign`, `div_mod`, `negate`) whose
//! contract it repeats.
use crate::arith::{is_difference, is_negation, is_sum};
use crate::division::is_div_mod;
use crate::field::Field;
use crate::poly::{Polynomial, HALF_POW, MAX_POW};
use crate::product::{fits_product, is_product};
use vstd::prelude::*;

verus! {

impl<F: Field> core::ops::Add for Polynomial<F> {
    type Output = Self;

    fn add(self, rhs: Self) -> (r: Self)
        ensures
            r.valid(),
            r.within(MAX_POW as int),
            is_sum(self, rhs, r),
    {
        let mut c = self;
        c.add_assign(rhs);
        c
    }
}

impl<F: Field> vstd::std_specs::ops::AddSpecImpl for Polynomial<F> {
    open spec fn obeys_add_spec() -> bool {
        false
    }

    open spec fn add_req(self, rhs: Self) -> bool {
        &&& self.valid()
        &&& rhs.valid()
        &&& self.within(MAX_POW as int)
        &&& rhs.within(MAX_POW as int)
    }

    /// Not used (`obeys_add_spec` is false): the operator states its result
    /// in its own `ensures`.
    open spec fn add_spec(self, rhs: Self) -> Self {
        self
    }
}

impl<F: Field> core::ops::Sub for Polynomial<F> {
    type Output = Self;

    fn sub(self, rhs: Self) -> (r: Self)
        ensures
            r.valid(),
            r.within(MAX_POW as int),
            is_difference(self, rhs, r),
    {
        let mut c = self;
        c.sub_assign(rhs);
        c
    }
}

impl<F: Field> vstd::std_specs::ops::SubSpecImpl for Polynomial<F> {
    open spec fn obeys_sub_spec() -> bool {
        false
    }

    open spec fn sub_req(self, rhs: Self) -> bool {
        &&& self.valid()
        &&& rhs.valid()
        &&& self.within(MAX_POW as int)
        &&& rhs.within(MAX_POW as int)
    }

    /// Not used (`obeys_sub_spec` is false): the operator states its result
    /// in its own `ensures`.
    open spec fn sub_spec(self, rhs: Self) -> Self {
        self
    }
}

impl<F: Field> core::ops::Mul for Polynomial<F> {
    type Output = Self;

    fn mul(self, rhs: Self) -> (r: Self)
        ensures
            r.valid(),
            r.within(MAX_POW as int),
            is_product(self, rhs, r),
    {
        let mut c = self;
        c.mul_assign(rhs);
        c
    }
}

impl<F: Field> vstd::std_specs::ops::MulSpecImpl for Polynomial<F> {
    open spec fn obeys_mul_spec() -> bool {
        false
    }

    open spec fn mul_req(self, rhs: Self) -> bool {
        &&& self.valid()
        &&& rhs.valid()
        &&& fits_product(self, rhs)
    }

    /// Not used (`obeys_mul_spec` is false): the operator states its result
    /// in its own `ensures`.
    open spec fn mul_spec(self, rhs: Self) -> Self {
        self
    }
}

impl<F: Field> core::ops::Div for Polynomial<F> {
    type Output = Self;

    fn div(self, rhs: Self) -> (r: Self)
        ensures
            r.valid(),
            r.within(MAX_POW as int),
            exists|rem: Self| is_div_mod(self, rhs, r, rem),
    {
        let (q, m) = self.div_mod(&rhs);
        q
    }
}

impl<F: Field> vstd::std_specs::ops::DivSpecImpl for Polynomial<F> {
    open spec fn obeys_div_spec() -> bool {
        false
    }

    open spec fn div_req(self, rhs: Self) -> bool {
        &&& self.valid()
        &&& rhs.valid()
        &&& self.within(HALF_POW as int)
        &&& rhs.within(HALF_POW as int)
        &&& !rhs.is_zero_value()
    }

    /// Not used (`obeys_div_spec` is false): the operator states its result
    /// in its own `ensures`.
    open spec fn div_spec(self, rhs: Self) -> Self {
        self
    }
}

impl<F: Field> core::ops::Rem for Polynomial<F> {
    type Output = Self;

    fn rem(self, rhs: Self) -> (r: Self)
        ensures
            r.valid(),
            r.within(MAX_POW as int),
            exists|quot: Self| is_div_mod(self, rhs, quot, r),
    {
        let (q, m) = self.div_mod(&rhs);
        m
    }
}

impl<F: Field> vstd::std_specs::ops::RemSpecImpl for Polynomial<F> {
    open spec fn obeys_rem_spec() -> bool {
        false
    }

    open spec fn rem_req(self, rhs: Self) -> bool {
        &&& self.valid()
        &&& rhs.valid()
        &&& self.within(HALF_POW as int)
        &&& rhs.within(HALF_POW as int)
        &&& !rhs.is_zero_value()
    }

    /// Not used (`obeys_rem_spec` is false): the operator states its result
    /// in its own `ensures`.
    open spec fn rem_spec(self, rhs: Self) -> Self {
        self
    }
}

impl<F: Field> core::ops::Neg for Polynomial<F> {
    type Output = Self;

    fn neg(self) -> (r: Self)
        ensures
            r.valid(),
            is_negation(self, r),
    {
        self.negate()
    }
}

impl<F: Field> vstd::std_specs::ops::NegSpecImpl for Polynomial<F> {
    open spec fn obeys_neg_spec() -> bool {
        false
    }

    open spec fn neg_req(self) -> bool {
        self.valid()
    }

    /// Not used (`obeys_neg_spec` is false): the operator states its result
    /// in its own `ensures`.
    open spec fn neg_spec(self) -> Self {
        self
    }
}

} // verus!
