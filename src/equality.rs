//! Equality of polynomials: the same coefficient at every exponent, with
//! zero outside each stored range.
use crate::field::Field;
use crate::gf2::Gf2;
use crate::poly::Polynomial;
use vstd::prelude::*;

verus! {

/// Every coefficient that `a` stores is, by the field's `eq_el`, the one
/// that `b` has at the same exponent.
pub open spec fn covers<F: Field>(a: Polynomial<F>, b: Polynomial<F>) -> bool {
    forall|e: int| #[trigger] a.stores(e) ==> F::fsame(a.coef(e), b.coef(e))
}

impl<F: Field> Polynomial<F> {
    /// The index in `other.coefs` of the exponent that index `i` of
    /// `self.coefs` holds, if `other` stores it.
    fn partner_index(&self, other: &Self, i: usize) -> (r: Option<usize>)
        requires
            i < self.coefs@.len(),
        ensures
            r matches Some(j) ==> j == i - self.zero_pow_idx + other.zero_pow_idx && j
                < other.coefs@.len(),
            r is None ==> !other.stores(i - self.zero_pow_idx),
    {
        let za = self.zero_pow_idx;
        let zb = other.zero_pow_idx;
        let lb = other.coefs.len();
        if za <= i {
            let d = i - za;
            if zb < lb && d < lb - zb {
                Some(d + zb)
            } else {
                None
            }
        } else {
            let d = za - i;
            if d <= zb && zb - d < lb {
                Some(zb - d)
            } else {
                None
            }
        }
    }

    /// Every coefficient that `self` stores equals `other`'s at its exponent.
    fn covered_by(&self, other: &Self) -> (r: bool)
        requires
            self.valid(),
            other.valid(),
        ensures
            r == covers(*self, *other),
            self.valid() && other.valid() ==> r == forall|e: int|
                #[trigger] self.stores(e) ==> self.coef(e) == other.coef(e),
    {
        let zero = F::zero_el();
        let mut i: usize = 0;
        while i < self.coefs.len()
            invariant
                self.valid(),
                other.valid(),
                zero == F::fzero(),
                F::fvalid(zero),
                i <= self.coefs@.len(),
                forall|e: int|
                    #[trigger] self.stores(e) && e + self.zero_pow_idx < i ==> F::fsame(
                        self.coef(e),
                        other.coef(e),
                    ),
                self.valid() && other.valid() ==> forall|e: int|
                    #[trigger] self.stores(e) && e + self.zero_pow_idx < i ==> self.coef(e)
                        == other.coef(e),
            decreases self.coefs@.len() - i,
        {
            let same = match self.partner_index(other, i) {
                Some(j) => self.coefs[i].eq_el(&other.coefs[j]),
                None => self.coefs[i].eq_el(&zero),
            };
            if !same {
                proof {
                    let e = i - self.zero_pow_idx;
                    assert(self.stores(e));
                }
                return false;
            }
            i = i + 1;
        }
        true
    }

    /// Both `covers` relations; on valid coefficients, equal values.
    fn same_coefs(&self, other: &Self) -> (r: bool)
        requires
            self.valid(),
            other.valid(),
        ensures
            r == (covers(*self, *other) && covers(*other, *self)),
            self.valid() && other.valid() ==> r == self.same_value(other),
    {
        let a = self.covered_by(other);
        let b = other.covered_by(self);
        let r = a && b;
        proof {
            if r && self.valid() && other.valid() {
                assert forall|e: int| #[trigger] self.coef(e) == other.coef(e) by {
                    if !self.stores(e) && !other.stores(e) {
                    } else if self.stores(e) {
                    } else {
                        assert(other.stores(e));
                    }
                }
            }
        }
        r
    }

    /// Whether the two polynomials have the same coefficient at every
    /// exponent.
    pub fn equals(&self, other: &Self) -> (r: bool)
        requires
            self.valid(),
            other.valid(),
        ensures
            r == self.same_value(other),
    {
        self.same_coefs(other)
    }
}

/// Over the two-element field every coefficient is valid, so `==` is
/// `equals` on every pair of polynomials.
impl PartialEq for Polynomial<Gf2> {
    fn eq(&self, other: &Self) -> (r: bool) {
        self.equals(other)
    }
}

impl vstd::std_specs::cmp::PartialEqSpecImpl for Polynomial<Gf2> {
    open spec fn obeys_eq_spec() -> bool {
        true
    }

    /// The same coefficient at every exponent.
    open spec fn eq_spec(&self, other: &Self) -> bool {
        self.same_value(other)
    }
}

} // verus!
