//! Long division of polynomials whose stored ranges may reach below the
//! exponent zero.
use crate::arith::sub_at;
use crate::field::Field;
use crate::poly::{coef_of, trims, Polynomial, HALF_POW, MAX_POW};
use crate::laws::lemma_normalized_unique;
use crate::product::{fits_product, term_seq, term_z};
use vstd::prelude::*;

verus! {

/// The numerator after `i` steps of long division of the normalized
/// numerator `(ns, nz)` by the normalized denominator `(ds, dz)`, as a
/// coefficient function. Step `i` looks at the exponent `top - i`, where
/// `top` is the numerator's degree, and subtracts the denominator scaled
/// so as to clear it.
pub open spec fn div_num<F: Field>(ns: Seq<F>, nz: int, ds: Seq<F>, dz: int, i: nat) -> spec_fn(
    int,
) -> F
    decreases i, 0nat,
{
    if i == 0 {
        |e: int| coef_of(ns, nz, e)
    } else {
        let v = div_num(ns, nz, ds, dz, (i - 1) as nat);
        let m = div_mult(ns, nz, ds, dz, (i - 1) as nat);
        if m == F::fzero() {
            v
        } else {
            let k = (ns.len() - nz - 1) - (ds.len() - dz - 1) - (i - 1);
            let ts = term_seq(ds, m, k);
            let tz = term_z(dz, k);
            |e: int|
                if 0 <= e + tz < ts.len() {
                    F::fsub(v(e), coef_of(ts, tz, e))
                } else {
                    v(e)
                }
        }
    }
}

/// The quotient coefficient that step `i` produces: the numerator's
/// coefficient at `top - i` over the denominator's leading coefficient.
pub open spec fn div_mult<F: Field>(ns: Seq<F>, nz: int, ds: Seq<F>, dz: int, i: nat) -> F
    decreases i, 1nat,
{
    let v = div_num(ns, nz, ds, dz, i);
    F::fdiv(v((ns.len() - nz - 1) - i), ds.last())
}

/// `quot` and `rem` are what long division of the normalized `(ns, nz)`
/// by the normalized `(ds, dz)` gives.
pub open spec fn div_outcome<F: Field>(
    ns: Seq<F>,
    nz: int,
    ds: Seq<F>,
    dz: int,
    quot: Polynomial<F>,
    rem: Polynomial<F>,
) -> bool {
    let top = ns.len() - nz - 1;
    let dd = ds.len() - dz - 1;
    &&& quot.is_normalized()
    &&& rem.is_normalized()
    &&& top < dd ==> quot.coefs@.len() == 0 && quot.zero_pow_idx == 0 && rem.coefs@ == ns
        && rem.zero_pow_idx == nz
    &&& top >= dd ==> {
        let steps = (top - dd + 1) as nat;
        &&& forall|e: int| #[trigger]
            quot.coef(e) == if 0 <= e < steps {
                div_mult(ns, nz, ds, dz, (steps - 1 - e) as nat)
            } else {
                F::fzero()
            }
        &&& forall|e: int| #[trigger] rem.coef(e) == div_num(ns, nz, ds, dz, steps)(e)
    }
}

/// `quot` and `rem` are the quotient and remainder of `p` by `q`.
pub open spec fn is_div_mod<F: Field>(
    p: Polynomial<F>,
    q: Polynomial<F>,
    quot: Polynomial<F>,
    rem: Polynomial<F>,
) -> bool {
    exists|ns: Seq<F>, nz: int, ds: Seq<F>, dz: int|
        #![trigger trims(ns, nz, p.coefs@, p.zero_pow_idx as int), trims(ds, dz, q.coefs@, q.zero_pow_idx as int)]
        trims(ns, nz, p.coefs@, p.zero_pow_idx as int) && trims(
            ds,
            dz,
            q.coefs@,
            q.zero_pow_idx as int,
        ) && div_outcome(ns, nz, ds, dz, quot, rem)
}

impl<F: Field> Polynomial<F> {
    /// Quotient and remainder of long division by `rhs`, which must not be
    /// the zero polynomial.
    pub fn div_mod(&self, rhs: &Self) -> (r: (Self, Self))
        requires
            self.valid(),
            rhs.valid(),
            self.within(HALF_POW as int),
            rhs.within(HALF_POW as int),
            !rhs.is_zero_value(),
        ensures
            r.0.valid(),
            r.1.valid(),
            r.0.within(MAX_POW as int),
            r.1.within(MAX_POW as int),
            is_div_mod(*self, *rhs, r.0, r.1),
            rhs.is_normalized() ==> fits_product(*rhs, r.0) && fits_product(r.0, *rhs),
    {
        let mut num = self.duplicate();
        num.normalize();
        let mut den = rhs.duplicate();
        den.normalize();
        let ghost ns = num.coefs@;
        let ghost nz = num.zero_pow_idx as int;
        let ghost ds = den.coefs@;
        let ghost dz = den.zero_pow_idx as int;
        proof {
            Self::lemma_trims(ns, nz, self.coefs@, self.zero_pow_idx as int);
            Self::lemma_trims(ds, dz, rhs.coefs@, rhs.zero_pow_idx as int);
            if rhs.is_normalized() {
                assert forall|e: int| #[trigger] coef_of(ds, dz, e) == coef_of(
                    rhs.coefs@,
                    rhs.zero_pow_idx as int,
                    e,
                ) by {}
                lemma_normalized_unique(ds, dz, rhs.coefs@, rhs.zero_pow_idx as int);
            }
        }
        assert(den.coefs@.len() > 0);
        if num.coefs.len() + den.zero_pow_idx < den.coefs.len() + num.zero_pow_idx {
            let z = Self::zero();
            assert(div_outcome(ns, nz, ds, dz, z, num));
            return (z, num);
        }
        proof {
            Self::lemma_trims_within(ns, nz, self.coefs@, self.zero_pow_idx as int, HALF_POW as int);
            Self::lemma_trims_within(ds, dz, rhs.coefs@, rhs.zero_pow_idx as int, HALF_POW as int);
        }
        let n_deg = num.degree();
        let d_deg = den.degree();
        let steps = (n_deg - d_deg) as usize + 1;
        let mut quot: Self = Polynomial::with_capacity(steps);
        let lead = den.coefs[den.coefs.len() - 1].clone_el();
        let zero = F::zero_el();
        let mut i: usize = 0;
        while i < steps
            invariant
                den.coefs@ == ds,
                den.zero_pow_idx == dz,
                den.valid(),
                den.within(HALF_POW as int),
                ds.len() > 0,
                lead == ds.last(),
                lead != F::fzero(),
                F::fvalid(lead),
                zero == F::fzero(),
                F::fvalid(zero),
                n_deg == ns.len() - nz - 1,
                d_deg == ds.len() - dz - 1,
                n_deg >= d_deg,
                steps == n_deg - d_deg + 1,
                i <= steps,
                num.valid(),
                num.is_normalized(),
                num.within(MAX_POW as int),
                -(HALF_POW as int) - 1 <= d_deg,
                n_deg <= HALF_POW,
                forall|e: int| #[trigger] num.coef(e) == div_num(ns, nz, ds, dz, i as nat)(e),
                quot.valid(),
                quot.zero_pow_idx == 0,
                quot.coefs@.len() == i,
                forall|j: int|
                    0 <= j < i ==> #[trigger] quot.coefs@[j] == div_mult(
                        ns,
                        nz,
                        ds,
                        dz,
                        (i - 1 - j) as nat,
                    ),
            decreases steps - i,
        {
            let pw = n_deg - (i as isize);
            let c = match num.get(pw) {
                Some(x) => x.clone_el(),
                None => F::zero_el(),
            };
            assert(c == num.coef(pw as int));
            let m = c.div_el(&lead);
            assert(m == div_mult(ns, nz, ds, dz, i as nat));
            let ghost q0 = quot.coefs@;
            quot.insert_coef(0, m.clone_el());
            assert forall|j: int| 0 <= j < i + 1 implies #[trigger] quot.coefs@[j] == div_mult(
                ns,
                nz,
                ds,
                dz,
                (i - j) as nat,
            ) by {
                if j > 0 {
                    assert(quot.coefs@[j] == q0[j - 1]);
                }
            }
            let ghost v = num;
            if !m.eq_el(&zero) {
                let k = n_deg - d_deg - (i as isize);
                let d = den.simple_mul(m, k);
                num.sub_assign(d);
                assert forall|e: int| #[trigger] num.coef(e) == div_num(
                    ns,
                    nz,
                    ds,
                    dz,
                    (i + 1) as nat,
                )(e) by {
                    assert(num.coef(e) == sub_at(v, d, e));
                    assert(d.coef(e) == coef_of(term_seq(ds, m, k as int), term_z(dz, k as int), e));
                }
            } else {
                assert forall|e: int| #[trigger] num.coef(e) == div_num(
                    ns,
                    nz,
                    ds,
                    dz,
                    (i + 1) as nat,
                )(e) by {}
            }
            i = i + 1;
        }
        let ghost qraw = quot;
        quot.normalize();
        proof {
            Self::lemma_trims(quot.coefs@, quot.zero_pow_idx as int, qraw.coefs@, 0);
            assert(quot.coefs@.len() <= steps);
            assert forall|e: int| #[trigger] quot.coef(e) == if 0 <= e < steps {
                div_mult(ns, nz, ds, dz, (steps - 1 - e) as nat)
            } else {
                F::fzero()
            } by {
                assert(quot.coef(e) == qraw.coef(e));
            }
            assert(div_outcome(ns, nz, ds, dz, quot, num));
        }
        (quot, num)
    }

    /// The quotient of `div_mod`.
    pub fn div_assign(&mut self, rhs: Self)
        requires
            old(self).valid(),
            rhs.valid(),
            old(self).within(HALF_POW as int),
            rhs.within(HALF_POW as int),
            !rhs.is_zero_value(),
        ensures
            final(self).valid(),
            final(self).within(MAX_POW as int),
            exists|rem: Self| is_div_mod(*old(self), rhs, *final(self), rem),
    {
        let (q, r) = self.div_mod(&rhs);
        *self = q;
    }

    /// The remainder of `div_mod`.
    pub fn rem_assign(&mut self, rhs: Self)
        requires
            old(self).valid(),
            rhs.valid(),
            old(self).within(HALF_POW as int),
            rhs.within(HALF_POW as int),
            !rhs.is_zero_value(),
        ensures
            final(self).valid(),
            final(self).within(MAX_POW as int),
            exists|quot: Self| is_div_mod(*old(self), rhs, quot, *final(self)),
    {
        let (q, r) = self.div_mod(&rhs);
        *self = r;
    }
}

} // verus!
