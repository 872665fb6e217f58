//! The two-element field: addition is exclusive or, multiplication is and.
use crate::field::{Field, FieldLaws};
use vstd::prelude::*;

verus! {

/// An element of the field with two elements.
#[derive(Clone, Copy, Debug, PartialEq, Eq, Structural)]
pub struct Gf2 {
    pub bit: bool,
}

impl Gf2 {
    pub fn new(bit: bool) -> (r: Gf2)
        ensures
            r.bit == bit,
    {
        Gf2 { bit }
    }
}

impl Field for Gf2 {
    open spec fn fvalid(a: Self) -> bool {
        true
    }

    open spec fn fzero() -> Self {
        Gf2 { bit: false }
    }

    open spec fn fone() -> Self {
        Gf2 { bit: true }
    }

    open spec fn fadd(a: Self, b: Self) -> Self {
        Gf2 { bit: a.bit != b.bit }
    }

    open spec fn fsub(a: Self, b: Self) -> Self {
        Gf2 { bit: a.bit != b.bit }
    }

    open spec fn fneg(a: Self) -> Self {
        a
    }

    open spec fn fmul(a: Self, b: Self) -> Self {
        Gf2 { bit: a.bit && b.bit }
    }

    open spec fn fdiv(a: Self, b: Self) -> Self {
        a
    }

    open spec fn ftext(a: Self) -> Seq<char> {
        if a.bit {
            seq!['1']
        } else {
            seq!['0']
        }
    }

    open spec fn fsame(a: Self, b: Self) -> bool {
        a == b
    }

    fn zero_el() -> (r: Self) {
        Gf2 { bit: false }
    }

    fn one_el() -> (r: Self) {
        Gf2 { bit: true }
    }

    fn add_el(&self, rhs: &Self) -> (r: Self) {
        Gf2 { bit: self.bit != rhs.bit }
    }

    fn sub_el(&self, rhs: &Self) -> (r: Self) {
        Gf2 { bit: self.bit != rhs.bit }
    }

    fn neg_el(&self) -> (r: Self) {
        *self
    }

    fn mul_el(&self, rhs: &Self) -> (r: Self) {
        Gf2 { bit: self.bit && rhs.bit }
    }

    fn div_el(&self, rhs: &Self) -> (r: Self) {
        *self
    }

    fn eq_el(&self, rhs: &Self) -> (r: bool) {
        assert(Self::fsame(*self, *rhs) == (self.bit == rhs.bit));
        self.bit == rhs.bit
    }

    fn clone_el(&self) -> (r: Self) {
        *self
    }

    fn to_text(&self) -> (r: String) {
        let r = if self.bit {
            String::from_str("1")
        } else {
            String::from_str("0")
        };
        proof {
            reveal_strlit("1");
            reveal_strlit("0");
        }
        r
    }
}

impl FieldLaws for Gf2 {
    proof fn law_valid_closed(a: Self, b: Self) {
    }

    proof fn law_add_assoc(a: Self, b: Self, c: Self) {
    }

    proof fn law_add_comm(a: Self, b: Self) {
    }

    proof fn law_add_zero(a: Self) {
    }

    proof fn law_add_neg(a: Self) {
    }

    proof fn law_sub(a: Self, b: Self) {
    }

    proof fn law_mul_assoc(a: Self, b: Self, c: Self) {
    }

    proof fn law_mul_comm(a: Self, b: Self) {
    }

    proof fn law_mul_one(a: Self) {
    }

    proof fn law_distrib(a: Self, b: Self, c: Self) {
    }

    proof fn law_div(a: Self, b: Self) {
    }

    proof fn law_nontrivial() {
    }
}

} // verus!
