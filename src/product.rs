//! Multiplication: the sum, over the nonzero coefficients of the right
//! operand, of the left operand scaled and shifted by each.
use crate::arith::add_at;
use crate::field::Field;
use crate::poly::{coef_of, copies, scale_seq, Polynomial, MAX_POW};
use vstd::prelude::*;

verus! {

/// The coefficients of `simple_mul(c, k)` applied to coefficients `a`.
pub open spec fn term_seq<F: Field>(a: Seq<F>, c: F, k: int) -> Seq<F> {
    if k >= 0 {
        scale_seq(copies(k as nat, F::fzero()) + a, c)
    } else {
        scale_seq(a, c)
    }
}

/// The zero index of `simple_mul(c, k)` applied to zero index `z`.
pub open spec fn term_z(z: int, k: int) -> int {
    if k >= 0 {
        z
    } else {
        z - k
    }
}

/// The coefficient of `x^e` in the sum of the terms that the first `n`
/// coefficients of `b` contribute to `a * b`; `None` while none of them
/// is nonzero.
pub open spec fn mul_acc<F: Field>(a: Polynomial<F>, b: Polynomial<F>, n: nat, e: int) -> Option<F>
    decreases n,
{
    if n == 0 || n > b.coefs@.len() {
        None
    } else {
        let prev = mul_acc(a, b, (n - 1) as nat, e);
        let c = b.coefs@[n - 1];
        let k = n - 1 - b.zero_pow_idx;
        if c == F::fzero() {
            prev
        } else {
            let ts = term_seq(a.coefs@, c, k);
            let tz = term_z(a.zero_pow_idx as int, k);
            let tc = coef_of(ts, tz, e);
            match prev {
                None => Some(tc),
                Some(v) => Some(
                    if 0 <= e + tz < ts.len() {
                        F::fadd(v, tc)
                    } else {
                        v
                    },
                ),
            }
        }
    }
}

/// The coefficient of `x^e` in `a * b`.
pub open spec fn mul_at<F: Field>(a: Polynomial<F>, b: Polynomial<F>, e: int) -> F {
    match mul_acc(a, b, b.coefs@.len(), e) {
        Some(v) => v,
        None => F::fzero(),
    }
}

/// The exponents of `a` and `b` add up to a stored range within
/// `-MAX_POW ..= MAX_POW`.
pub open spec fn fits_product<F: Field>(a: Polynomial<F>, b: Polynomial<F>) -> bool {
    &&& a.within(MAX_POW as int)
    &&& b.within(MAX_POW as int)
    &&& a.zero_pow_idx + b.zero_pow_idx <= MAX_POW
    &&& a.coefs@.len() + b.coefs@.len() <= a.zero_pow_idx + b.zero_pow_idx + MAX_POW + 1
}

/// `r` is the normalized product of `a` and `b`.
pub open spec fn is_product<F: Field>(a: Polynomial<F>, b: Polynomial<F>, r: Polynomial<F>) -> bool {
    &&& r.is_normalized()
    &&& forall|e: int| #[trigger] r.coef(e) == mul_at(a, b, e)
}

impl<F: Field> Polynomial<F> {
    /// `self *= rhs`, normalized.
    pub fn mul_assign(&mut self, rhs: Self)
        requires
            old(self).valid(),
            rhs.valid(),
            fits_product(*old(self), rhs),
        ensures
            final(self).valid(),
            final(self).is_normalized(),
            final(self).within(MAX_POW as int),
            is_product(*old(self), rhs, *final(self)),
    {
        let ghost a = *self;
        let zero = F::zero_el();
        let mut acc: Option<Self> = None;
        let rz = rhs.zero_pow_idx;
        let mut i: usize = 0;
        while i < rhs.coefs.len()
            invariant
                *self == a,
                a.valid(),
                rhs.valid(),
                fits_product(a, rhs),
                rz == rhs.zero_pow_idx,
                zero == F::fzero(),
                F::fvalid(zero),
                i <= rhs.coefs@.len(),
                acc is None ==> forall|e: int| #[trigger] mul_acc(a, rhs, i as nat, e) is None,
                acc matches Some(p) ==> p.valid() && p.within(MAX_POW as int) && forall|e: int|
                    #[trigger] mul_acc(a, rhs, i as nat, e) == Some(p.coef(e)),
            decreases rhs.coefs@.len() - i,
        {
            let c = rhs.coefs[i].clone_el();
            let ghost n1 = (i + 1) as nat;
            if !c.eq_el(&zero) {
                let k = (i as isize) - (rz as isize);
                let term = self.simple_mul(c, k);
                assert(term.within(MAX_POW as int));
                proof {
                    assert forall|e: int| #[trigger] term.coef(e) == coef_of(
                        term_seq(a.coefs@, c, k as int),
                        term_z(a.zero_pow_idx as int, k as int),
                        e,
                    ) by {}
                }
                let ghost prev = acc;
                acc = match acc {
                    None => Some(term),
                    Some(p) => {
                        let mut p = p;
                        p.add_assign(term);
                        Some(p)
                    },
                };
                proof {
                    assert forall|e: int| #[trigger] mul_acc(a, rhs, n1, e) == Some(
                        acc->0.coef(e),
                    ) by {
                        assert(mul_acc(a, rhs, n1, e) == match mul_acc(a, rhs, i as nat, e) {
                            None => Some(term.coef(e)),
                            Some(v) => Some(
                                if term.stores(e) {
                                    F::fadd(v, term.coef(e))
                                } else {
                                    v
                                },
                            ),
                        });
                        if prev is Some {
                            assert(mul_acc(a, rhs, i as nat, e) == Some(prev->0.coef(e)));
                            assert(acc->0.coef(e) == add_at(prev->0, term, e));
                        }
                    }
                }
            } else {
                proof {
                    assert forall|e: int| #[trigger] mul_acc(a, rhs, n1, e) == mul_acc(
                        a,
                        rhs,
                        i as nat,
                        e,
                    ) by {}
                }
            }
            i = i + 1;
        }
        match acc {
            None => {
                self.coefs = Vec::new();
                self.zero_pow_idx = 0;
            },
            Some(p) => {
                let ghost raw = p;
                *self = p;
                self.normalize();
                proof {
                    Self::lemma_trims(
                        self.coefs@,
                        self.zero_pow_idx as int,
                        raw.coefs@,
                        raw.zero_pow_idx as int,
                    );
                    assert forall|e: int| #[trigger] self.coef(e) == raw.coef(e) by {
                        assert(coef_of(self.coefs@, self.zero_pow_idx as int, e) == coef_of(
                            raw.coefs@,
                            raw.zero_pow_idx as int,
                            e,
                        ));
                    }
                }
            },
        }
    }
}

} // verus!
