//! Addition, subtraction and negation of polynomials.
use crate::field::Field;
use crate::poly::{all_valid, coef_of, trims, Polynomial, MAX_POW};
use vstd::prelude::*;

verus! {

impl<F: Field> Polynomial<F> {
    /// The exponent `e` lies in the stored range.
    pub open spec fn stores(&self, e: int) -> bool {
        0 <= e + self.zero_pow_idx < self.coefs@.len()
    }
}

/// The coefficient of `x^e` in `a + b`: where `b` stores `e` the two are
/// added, elsewhere `a`'s coefficient stands.
pub open spec fn add_at<F: Field>(a: Polynomial<F>, b: Polynomial<F>, e: int) -> F {
    if b.stores(e) {
        F::fadd(a.coef(e), b.coef(e))
    } else {
        a.coef(e)
    }
}

/// The coefficient of `x^e` in `a - b`, in the manner of `add_at`.
pub open spec fn sub_at<F: Field>(a: Polynomial<F>, b: Polynomial<F>, e: int) -> F {
    if b.stores(e) {
        F::fsub(a.coef(e), b.coef(e))
    } else {
        a.coef(e)
    }
}

/// `r` is the normalized sum of `a` and `b`.
pub open spec fn is_sum<F: Field>(a: Polynomial<F>, b: Polynomial<F>, r: Polynomial<F>) -> bool {
    &&& r.is_normalized()
    &&& forall|e: int| #[trigger] r.coef(e) == add_at(a, b, e)
}

/// `r` is the normalized difference of `a` and `b`.
pub open spec fn is_difference<F: Field>(a: Polynomial<F>, b: Polynomial<F>, r: Polynomial<F>) -> bool {
    &&& r.is_normalized()
    &&& forall|e: int| #[trigger] r.coef(e) == sub_at(a, b, e)
}

/// `r` is `p` normalized, with every coefficient negated.
pub open spec fn is_negation<F: Field>(p: Polynomial<F>, r: Polynomial<F>) -> bool {
    exists|t: Seq<F>|
        trims(t, r.zero_pow_idx as int, p.coefs@, p.zero_pow_idx as int) && r.coefs@ == Seq::new(
            t.len(),
            |i: int| F::fneg(t[i]),
        )
}

impl<F: Field> Polynomial<F> {
    /// A normalized polynomial that `trims` produced keeps its bounds.
    pub proof fn lemma_trims_within(r: Seq<F>, rz: int, s: Seq<F>, z: int, lim: int)
        requires
            trims(r, rz, s, z),
            z <= lim,
            s.len() <= z + lim + 1,
        ensures
            rz <= lim,
            r.len() <= rz + lim + 1,
    {
    }

    /// Adds (or subtracts) `rhs` coefficient by coefficient over the
    /// union of the two stored ranges, then normalizes.
    fn combine(&mut self, rhs: &Self, subtract: bool)
        requires
            old(self).valid(),
            rhs.valid(),
            old(self).within(MAX_POW as int),
            rhs.within(MAX_POW as int),
        ensures
            final(self).valid(),
            final(self).is_normalized(),
            final(self).within(MAX_POW as int),
            forall|e: int| #[trigger] final(self).coef(e) == if subtract {
                sub_at(*old(self), *rhs, e)
            } else {
                add_at(*old(self), *rhs, e)
            },
    {
        let ghost a0 = *self;
        self.align_size_to(rhs);
        let ghost a = *self;
        let d = self.zero_pow_idx - rhs.zero_pow_idx;
        let mut i: usize = 0;
        while i < self.coefs.len()
            invariant
                self.zero_pow_idx == a.zero_pow_idx,
                self.coefs@.len() == a.coefs@.len(),
                d == a.zero_pow_idx - rhs.zero_pow_idx,
                rhs.valid(),
                a.valid(),
                all_valid(self.coefs@),
                i <= a.coefs@.len(),
                forall|j: int| i <= j < a.coefs@.len() ==> #[trigger] self.coefs@[j] == a.coefs@[j],
                forall|j: int|
                    0 <= j < i ==> #[trigger] self.coefs@[j] == if d <= j < d + rhs.coefs@.len() {
                        if subtract {
                            F::fsub(a.coefs@[j], rhs.coefs@[j - d])
                        } else {
                            F::fadd(a.coefs@[j], rhs.coefs@[j - d])
                        }
                    } else {
                        a.coefs@[j]
                    },
            decreases a.coefs@.len() - i,
        {
            if i >= d && i - d < rhs.coefs.len() {
                let v = if subtract {
                    self.coefs[i].sub_el(&rhs.coefs[i - d])
                } else {
                    self.coefs[i].add_el(&rhs.coefs[i - d])
                };
                self.coefs.set(i, v);
            }
            i = i + 1;
        }
        let ghost raw = *self;
        assert forall|e: int| #[trigger] raw.coef(e) == if subtract {
            sub_at(a0, *rhs, e)
        } else {
            add_at(a0, *rhs, e)
        } by {
            assert(a.coef(e) == a0.coef(e));
            let j = e + a.zero_pow_idx;
            if rhs.stores(e) {
                assert(d <= j < d + rhs.coefs@.len());
                assert(0 <= j < a.coefs@.len());
            }
        }
        self.normalize();
        proof {
            Self::lemma_trims(
                self.coefs@,
                self.zero_pow_idx as int,
                raw.coefs@,
                raw.zero_pow_idx as int,
            );
            Self::lemma_trims_within(
                self.coefs@,
                self.zero_pow_idx as int,
                raw.coefs@,
                raw.zero_pow_idx as int,
                MAX_POW as int,
            );
            assert forall|e: int| #[trigger] self.coef(e) == raw.coef(e) by {
                assert(coef_of(self.coefs@, self.zero_pow_idx as int, e) == coef_of(
                    raw.coefs@,
                    raw.zero_pow_idx as int,
                    e,
                ));
            }
        }
    }

    /// `self += rhs`, normalized.
    pub fn add_assign(&mut self, rhs: Self)
        requires
            old(self).valid(),
            rhs.valid(),
            old(self).within(MAX_POW as int),
            rhs.within(MAX_POW as int),
        ensures
            final(self).valid(),
            final(self).is_normalized(),
            final(self).within(MAX_POW as int),
            is_sum(*old(self), rhs, *final(self)),
    {
        self.combine(&rhs, false)
    }

    /// `self -= rhs`, normalized.
    pub fn sub_assign(&mut self, rhs: Self)
        requires
            old(self).valid(),
            rhs.valid(),
            old(self).within(MAX_POW as int),
            rhs.within(MAX_POW as int),
        ensures
            final(self).valid(),
            final(self).is_normalized(),
            final(self).within(MAX_POW as int),
            is_difference(*old(self), rhs, *final(self)),
    {
        self.combine(&rhs, true)
    }

    /// The normalized polynomial with every coefficient negated.
    pub fn negate(&self) -> (r: Self)
        requires
            self.valid(),
        ensures
            r.valid(),
            r.zero_pow_idx <= self.zero_pow_idx,
            is_negation(*self, r),
    {
        let mut c = self.duplicate();
        c.normalize();
        let ghost t = c.coefs@;
        let mut i: usize = 0;
        while i < c.coefs.len()
            invariant
                c.coefs@.len() == t.len(),
                trims(t, c.zero_pow_idx as int, self.coefs@, self.zero_pow_idx as int),
                all_valid(t),
                all_valid(c.coefs@),
                i <= t.len(),
                forall|j: int| 0 <= j < i ==> #[trigger] c.coefs@[j] == F::fneg(t[j]),
                forall|j: int| i <= j < t.len() ==> #[trigger] c.coefs@[j] == t[j],
            decreases t.len() - i,
        {
            let v = c.coefs[i].neg_el();
            c.coefs.set(i, v);
            i = i + 1;
        }
        assert(c.coefs@ == Seq::new(t.len(), |i: int| F::fneg(t[i])));
        assert(trims(t, c.zero_pow_idx as int, self.coefs@, self.zero_pow_idx as int));
        c
    }
}

impl<F: Field> Polynomial<F> {
    /// The zero polynomial: no stored coefficient.
    pub fn zero() -> (r: Self)
        ensures
            r.coefs@.len() == 0,
            r.zero_pow_idx == 0,
            r.valid(),
            r.is_normalized(),
    {
        let v = vec![F::zero_el()];
        let r = Self::from_vec(v, 0);
        r
    }

    /// The polynomial `1`.
    pub fn one() -> (r: Self)
        ensures
            r.valid(),
            r.is_normalized(),
            r.zero_pow_idx == 0,
            F::fone() != F::fzero() ==> r.coefs@ == seq![F::fone()],
            F::fone() == F::fzero() ==> r.coefs@.len() == 0,
    {
        let v = vec![F::one_el()];
        assert(v@ == seq![F::fone()]);
        let r = Self::from_vec(v, 0);
        proof {
            Self::lemma_trims(r.coefs@, r.zero_pow_idx as int, seq![F::fone()], 0);
            if r.coefs@.len() > 0 {
                assert(r.coefs@ == seq![F::fone()].subrange(0, r.coefs@.len() as int));
            }
        }
        r
    }

    /// Every coefficient is zero.
    pub fn is_zero(&self) -> (r: bool)
        requires
            self.valid(),
        ensures
            r == self.is_zero_value(),
    {
        let zero = F::zero_el();
        let mut i: usize = 0;
        while i < self.coefs.len()
            invariant
                self.valid(),
                zero == F::fzero(),
                F::fvalid(zero),
                i <= self.coefs@.len(),
                forall|j: int| 0 <= j < i ==> #[trigger] self.coefs@[j] == F::fzero(),
            decreases self.coefs@.len() - i,
        {
            if !self.coefs[i].eq_el(&zero) {
                return false;
            }
            i = i + 1;
        }
        true
    }
}


} // verus!
