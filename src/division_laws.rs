//! Long division meets its specification: `q * quot + rem == p`, with the
//! remainder below the divisor's degree.
use crate::arith::{add_at, is_sum};
use crate::division::{div_mult, div_num, div_outcome, is_div_mod};
use crate::field::{Field, FieldLaws};
use crate::poly::{coef_of, trims, Polynomial};
use crate::product::{is_product, mul_acc, mul_at, term_seq, term_z};
use crate::sums::{
    lemma_add_sub_cancel,
    lemma_div_self,
    lemma_lsum_ext,
    lemma_lsum_reverse,
    lemma_lsum_zero_tail,
    lemma_mul_div,
    lemma_sub_self,
    lemma_sub_sub,
    lemma_sub_zero,
    lemma_zero_mul,
    lsum,
};
use vstd::prelude::*;

verus! {

/// Under the field laws a scaled and shifted term holds `a(e - k) * c` at
/// every exponent `e`.
pub proof fn lemma_term_coef<F: FieldLaws>(a: Seq<F>, az: int, c: F, k: int, e: int)
    ensures
        coef_of(term_seq(a, c, k), term_z(az, k), e) == F::fmul(coef_of(a, az, e - k), c),
{
    let ts = term_seq(a, c, k);
    let idx = e + term_z(az, k);
    lemma_zero_mul(c);
    if 0 <= idx < ts.len() && k >= 0 {
        assert(ts[idx] == F::fmul((crate::poly::copies(k as nat, F::fzero()) + a)[idx], c));
    }
}

/// The terms of the convolution at `x^e`: stored coefficient `j` of `b`,
/// at exponent `j - b.zero_pow_idx`, times `a`'s coefficient that it
/// meets there.
pub open spec fn product_terms<F: Field>(a: Polynomial<F>, b: Polynomial<F>, e: int) -> spec_fn(
    int,
) -> F {
    |j: int| F::fmul(a.coef(e - (j - b.zero_pow_idx)), b.coefs@[j])
}

/// Under the field laws the first `n` terms of a product add up to the
/// first `n` terms of the convolution.
pub proof fn lemma_mul_acc_sum<F: FieldLaws>(a: Polynomial<F>, b: Polynomial<F>, n: nat, e: int)
    requires
        n <= b.coefs@.len(),
    ensures
        mul_acc(a, b, n, e) is None ==> lsum(product_terms(a, b, e), n) == F::fzero(),
        mul_acc(a, b, n, e) matches Some(v) ==> v == lsum(product_terms(a, b, e), n),
    decreases n,
{
    let g = product_terms(a, b, e);
    if n > 0 {
        lemma_mul_acc_sum(a, b, (n - 1) as nat, e);
        let c = b.coefs@[n - 1];
        let k = n - 1 - b.zero_pow_idx;
        let prev = lsum(g, (n - 1) as nat);
        assert(lsum(g, n) == F::fadd(prev, g(n - 1)));
        lemma_zero_mul(a.coef(e - k));
        if c == F::fzero() {
            F::law_add_zero(prev);
        } else {
            lemma_term_coef(a.coefs@, a.zero_pow_idx as int, c, k, e);
            let ts = term_seq(a.coefs@, c, k);
            let tz = term_z(a.zero_pow_idx as int, k);
            let tc = coef_of(ts, tz, e);
            assert(tc == g(n - 1));
            if !(0 <= e + tz < ts.len()) {
                F::law_add_zero(prev);
                lemma_zero_mul(c);
                assert(a.coef(e - k) == F::fzero());
            }
            F::law_add_comm(F::fzero(), tc);
            F::law_add_zero(tc);
        }
    }
}

/// Under the field laws a product is the schoolbook convolution: its
/// coefficient at `x^e` is the sum over the stored coefficients `b_j` of
/// `a(e - (j - b.zero_pow_idx)) * b_j`.
pub proof fn law_product_convolution<F: FieldLaws>(
    a: Polynomial<F>,
    b: Polynomial<F>,
    r: Polynomial<F>,
)
    requires
        is_product(a, b, r),
    ensures
        forall|e: int| #[trigger] r.coef(e) == lsum(product_terms(a, b, e), b.coefs@.len()),
{
    assert forall|e: int| #[trigger] r.coef(e) == lsum(product_terms(a, b, e), b.coefs@.len()) by {
        lemma_mul_acc_sum(a, b, b.coefs@.len(), e);
    }
}

/// The subtracted term of step `t`, at exponent `e`.
pub open spec fn div_terms<F: Field>(ns: Seq<F>, nz: int, ds: Seq<F>, dz: int, e: int) -> spec_fn(
    int,
) -> F {
    let top = ns.len() - nz - 1;
    let dd = ds.len() - dz - 1;
    |t: int| F::fmul(coef_of(ds, dz, e - (top - dd - t)), div_mult(ns, nz, ds, dz, t as nat))
}

/// After `i` steps the numerator is the starting one minus the first `i`
/// subtracted terms.
pub proof fn lemma_div_num_sum<F: FieldLaws>(
    ns: Seq<F>,
    nz: int,
    ds: Seq<F>,
    dz: int,
    i: nat,
    e: int,
)
    requires
        i <= (ns.len() - nz - 1) - (ds.len() - dz - 1) + 1,
    ensures
        div_num(ns, nz, ds, dz, i)(e) == F::fsub(
            coef_of(ns, nz, e),
            lsum(div_terms(ns, nz, ds, dz, e), i),
        ),
    decreases i,
{
    let h = div_terms(ns, nz, ds, dz, e);
    if i == 0 {
        lemma_sub_zero(coef_of(ns, nz, e));
    } else {
        let j = (i - 1) as nat;
        lemma_div_num_sum(ns, nz, ds, dz, j, e);
        let v = div_num(ns, nz, ds, dz, j);
        let m = div_mult(ns, nz, ds, dz, j);
        let k = (ns.len() - nz - 1) - (ds.len() - dz - 1) - j;
        let l = lsum(h, j);
        assert(lsum(h, i) == F::fadd(l, h(j as int)));
        lemma_term_coef(ds, dz, m, k, e);
        lemma_zero_mul(coef_of(ds, dz, e - k));
        lemma_sub_sub(coef_of(ns, nz, e), l, h(j as int));
        lemma_sub_zero(v(e));
        if m == F::fzero() {
            F::law_add_zero(l);
        } else {
            let ts = term_seq(ds, m, k);
            let tz = term_z(dz, k);
            if !(0 <= e + tz < ts.len()) {
                lemma_zero_mul(m);
                assert(coef_of(ds, dz, e - k) == F::fzero());
            }
        }
    }
}

/// After `i` steps every coefficient above `top - i` is zero.
pub proof fn lemma_div_num_clears<F: FieldLaws>(
    ns: Seq<F>,
    nz: int,
    ds: Seq<F>,
    dz: int,
    i: nat,
    e: int,
)
    requires
        0 <= nz,
        0 <= dz,
        ds.len() > 0,
        ds.last() != F::fzero(),
        ds.len() - dz - 1 <= ns.len() - nz - 1,
        i <= (ns.len() - nz - 1) - (ds.len() - dz - 1) + 1,
        e > (ns.len() - nz - 1) - i,
    ensures
        div_num(ns, nz, ds, dz, i)(e) == F::fzero(),
    decreases i,
{
    let top = ns.len() - nz - 1;
    let dd = ds.len() - dz - 1;
    let lead = ds.last();
    if i > 0 {
        let j = (i - 1) as nat;
        let v = div_num(ns, nz, ds, dz, j);
        let m = div_mult(ns, nz, ds, dz, j);
        let k = top - dd - j;
        let c = v(top - j);
        if e > top - j {
            lemma_div_num_clears(ns, nz, ds, dz, j, e);
        }
        F::law_div(c, lead);
        lemma_zero_mul(lead);
        lemma_zero_mul(m);
        lemma_term_coef(ds, dz, m, k, e);
        lemma_sub_zero(F::fzero());
        if m != F::fzero() {
            let ts = term_seq(ds, m, k);
            let tz = term_z(dz, k);
            if e == top - j {
                assert(coef_of(ds, dz, e - k) == lead);
                lemma_mul_div(c, lead);
                lemma_sub_self(c);
                assert(0 <= e + tz < ts.len());
            } else {
                assert(coef_of(ds, dz, e - k) == F::fzero());
            }
        }
    }
}

/// The quotient and remainder of `p` by a nonzero `q` satisfy
/// `q * quot + rem == p`, and the remainder, when it is not zero, has a
/// lower degree than `q` (see `law_remainder_degree`).
pub proof fn law_division<F: FieldLaws>(
    p: Polynomial<F>,
    q: Polynomial<F>,
    quot: Polynomial<F>,
    rem: Polynomial<F>,
    prod: Polynomial<F>,
    sum: Polynomial<F>,
)
    requires
        !q.is_zero_value(),
        is_div_mod(p, q, quot, rem),
        is_product(q, quot, prod),
        is_sum(prod, rem, sum),
    ensures
        sum.same_value(&p),
        forall|qs: Seq<F>, qz: int|
            #![trigger trims(qs, qz, q.coefs@, q.zero_pow_idx as int)]
            trims(qs, qz, q.coefs@, q.zero_pow_idx as int) ==> (rem.coefs@.len() > 0 ==> rem.deg()
                < qs.len() - qz - 1),
        rem.coefs@.len() > 0 ==> rem.deg() < q.deg(),
{
    let (ns, nz, ds, dz) = choose|ns: Seq<F>, nz: int, ds: Seq<F>, dz: int|
        #![trigger trims(ns, nz, p.coefs@, p.zero_pow_idx as int), trims(ds, dz, q.coefs@, q.zero_pow_idx as int)]
        trims(ns, nz, p.coefs@, p.zero_pow_idx as int) && trims(
            ds,
            dz,
            q.coefs@,
            q.zero_pow_idx as int,
        ) && div_outcome(ns, nz, ds, dz, quot, rem);
    Polynomial::<F>::lemma_trims(ns, nz, p.coefs@, p.zero_pow_idx as int);
    Polynomial::<F>::lemma_trims(ds, dz, q.coefs@, q.zero_pow_idx as int);
    assert(ds.len() > 0);
    let top = ns.len() - nz - 1;
    let dd = ds.len() - dz - 1;
    if top < dd {
        assert forall|e: int| #[trigger] sum.coef(e) == p.coef(e) by {
            assert(sum.coef(e) == add_at(prod, rem, e));
            assert(prod.coef(e) == mul_at(q, quot, e));
            assert(rem.coef(e) == coef_of(ns, nz, e));
            F::law_add_comm(F::fzero(), rem.coef(e));
            F::law_add_zero(rem.coef(e));
        }
    } else {
        let steps = (top - dd + 1) as nat;
        // The quotient stores no negative exponent and nothing from `steps` up.
        if quot.coefs@.len() > 0 && quot.zero_pow_idx > 0 {
            assert(quot.coef(-quot.zero_pow_idx) == quot.coefs@[0]);
        }
        assert(quot.zero_pow_idx == 0);
        if quot.coefs@.len() > steps {
            assert(quot.coef(quot.coefs@.len() - 1) == quot.coefs@.last());
        }
        let n = quot.coefs@.len();
        assert forall|e: int| #[trigger] sum.coef(e) == p.coef(e) by {
            let g = product_terms(q, quot, e);
            let qv = |j: int| quot.coef(j);
            let g2 = |j: int| F::fmul(coef_of(ds, dz, e - j), quot.coef(j));
            let h = div_terms(ns, nz, ds, dz, e);
            lemma_mul_acc_sum(q, quot, n, e);
            assert(prod.coef(e) == lsum(g, n));
            assert forall|j: int| 0 <= j < n implies #[trigger] g(j) == g2(j) by {
                assert(quot.coef(j) == quot.coefs@[j]);
            }
            lemma_lsum_ext(g, g2, n);
            assert forall|j: int| n <= j < steps implies #[trigger] g2(j) == F::fzero() by {
                lemma_zero_mul(coef_of(ds, dz, e - j));
            }
            lemma_lsum_zero_tail(g2, n, steps);
            lemma_lsum_reverse(g2, steps);
            assert forall|t: int| 0 <= t < steps implies #[trigger] h(t) == (|t: int| g2(steps - 1 - t))(t) by {
                assert(quot.coef(steps - 1 - t) == div_mult(ns, nz, ds, dz, t as nat));
            }
            lemma_lsum_ext(h, |t: int| g2(steps - 1 - t), steps);
            let x = lsum(h, steps);
            assert(prod.coef(e) == x);
            lemma_div_num_sum(ns, nz, ds, dz, steps, e);
            assert(rem.coef(e) == F::fsub(p.coef(e), x));
            lemma_add_sub_cancel(x, p.coef(e));
            assert(sum.coef(e) == add_at(prod, rem, e));
            if !rem.stores(e) {
                F::law_add_zero(x);
                assert(F::fsub(p.coef(e), x) == F::fzero());
            }
        }
    }
    law_remainder_degree(p, q, quot, rem);
}

/// The remainder of a nonzero `q`, when it is not zero, has a lower degree
/// than `q` normalized (and so than `q` as stored).
pub proof fn law_remainder_degree<F: FieldLaws>(
    p: Polynomial<F>,
    q: Polynomial<F>,
    quot: Polynomial<F>,
    rem: Polynomial<F>,
)
    requires
        !q.is_zero_value(),
        is_div_mod(p, q, quot, rem),
    ensures
        forall|qs: Seq<F>, qz: int|
            #![trigger trims(qs, qz, q.coefs@, q.zero_pow_idx as int)]
            trims(qs, qz, q.coefs@, q.zero_pow_idx as int) ==> (rem.coefs@.len() > 0 ==> rem.deg()
                < qs.len() - qz - 1),
        rem.coefs@.len() > 0 ==> rem.deg() < q.deg(),
{
    let (ns, nz, ds, dz) = choose|ns: Seq<F>, nz: int, ds: Seq<F>, dz: int|
        #![trigger trims(ns, nz, p.coefs@, p.zero_pow_idx as int), trims(ds, dz, q.coefs@, q.zero_pow_idx as int)]
        trims(ns, nz, p.coefs@, p.zero_pow_idx as int) && trims(
            ds,
            dz,
            q.coefs@,
            q.zero_pow_idx as int,
        ) && div_outcome(ns, nz, ds, dz, quot, rem);
    Polynomial::<F>::lemma_trims(ns, nz, p.coefs@, p.zero_pow_idx as int);
    Polynomial::<F>::lemma_trims(ds, dz, q.coefs@, q.zero_pow_idx as int);
    assert(ds.len() > 0);
    let top = ns.len() - nz - 1;
    let dd = ds.len() - dz - 1;
    if top >= dd && rem.coefs@.len() > 0 {
        let steps = (top - dd + 1) as nat;
        let d = rem.deg();
        assert(rem.coef(d) == rem.coefs@.last());
        if d >= dd {
            lemma_div_num_clears(ns, nz, ds, dz, steps, d);
        }
    }
    assert forall|qs: Seq<F>, qz: int|
        #![trigger trims(qs, qz, q.coefs@, q.zero_pow_idx as int)]
        trims(qs, qz, q.coefs@, q.zero_pow_idx as int) && rem.coefs@.len() > 0 implies rem.deg()
        < qs.len() - qz - 1 by {
        crate::laws::lemma_trims_unique(qs, qz, ds, dz, q.coefs@, q.zero_pow_idx as int);
    }
}

/// A nonzero polynomial divided by itself gives the polynomial `1`, with
/// no remainder.
pub proof fn law_div_self<F: FieldLaws>(p: Polynomial<F>, quot: Polynomial<F>, rem: Polynomial<F>)
    requires
        !p.is_zero_value(),
        is_div_mod(p, p, quot, rem),
    ensures
        quot.zero_pow_idx == 0,
        quot.coefs@ == seq![F::fone()],
        rem.coefs@.len() == 0,
{
    let (ns, nz, ds, dz) = choose|ns: Seq<F>, nz: int, ds: Seq<F>, dz: int|
        #![trigger trims(ns, nz, p.coefs@, p.zero_pow_idx as int), trims(ds, dz, p.coefs@, p.zero_pow_idx as int)]
        trims(ns, nz, p.coefs@, p.zero_pow_idx as int) && trims(
            ds,
            dz,
            p.coefs@,
            p.zero_pow_idx as int,
        ) && div_outcome(ns, nz, ds, dz, quot, rem);
    Polynomial::<F>::lemma_trims(ns, nz, p.coefs@, p.zero_pow_idx as int);
    Polynomial::<F>::lemma_trims(ds, dz, p.coefs@, p.zero_pow_idx as int);
    let top = ns.len() - nz - 1;
    let dd = ds.len() - dz - 1;
    // Both are the normalized `p`: the same highest exponent.
    assert(coef_of(ns, nz, top) == ns.last());
    assert(coef_of(ds, dz, dd) == ds.last());
    if top > dd {
        assert(coef_of(ds, dz, top) == F::fzero());
    }
    if dd > top {
        assert(coef_of(ns, nz, dd) == F::fzero());
    }
    assert(top == dd);
    F::law_nontrivial();
    lemma_div_self(ds.last());
    assert(div_num(ns, nz, ds, dz, 0)(top) == ns.last());
    assert(div_mult(ns, nz, ds, dz, 0) == F::fone());
    // The quotient's value is `1`.
    if quot.coefs@.len() > 0 && quot.zero_pow_idx > 0 {
        assert(quot.coef(-quot.zero_pow_idx) == quot.coefs@[0]);
    }
    assert(quot.coef(0) == F::fone());
    if quot.coefs@.len() > 1 {
        assert(quot.coef(quot.coefs@.len() - 1) == quot.coefs@.last());
    }
    assert(quot.coefs@ =~= seq![F::fone()]);
    // The remainder is zero.
    assert forall|e: int| #[trigger] rem.coef(e) == F::fzero() by {
        if e >= dd {
            lemma_div_num_clears(ns, nz, ds, dz, 1, e);
        } else {
            let m = F::fone();
            let k = 0int;
            lemma_term_coef(ds, dz, m, k, e);
            F::law_mul_one(coef_of(ds, dz, e));
            lemma_sub_self(coef_of(ns, nz, e));
            assert forall|i: int| 0 <= i < ds.len() implies #[trigger] term_seq(ds, m, k)[i]
                == ds[i] by {
                F::law_mul_one(ds[i]);
            }
            assert(term_seq(ds, m, k) =~= ds);
            assert(div_num(ns, nz, ds, dz, 1)(e) == if 0 <= e + dz < ds.len() {
                F::fsub(coef_of(ns, nz, e), coef_of(ds, dz, e))
            } else {
                coef_of(ns, nz, e)
            });
            assert(coef_of(ns, nz, e) == coef_of(ds, dz, e));
        }
    }
    crate::laws::lemma_normalized_zero_is_empty(rem);
}

} // verus!
