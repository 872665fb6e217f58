//! Laws that relate the operations of the library, proved over their
//! contracts.
use crate::arith::{add_at, is_difference, is_negation, is_sum, sub_at};
use crate::field::{Field, FieldLaws};
use crate::poly::{coef_of, copies, trims, Polynomial};
use crate::product::{is_product, mul_acc, mul_at, term_seq};
use crate::sums::lemma_zero_add;
use vstd::prelude::*;

verus! {

/// A value whose negation is zero is zero.
pub proof fn lemma_neg_zero_inv<F: FieldLaws>(a: F)
    requires
        F::fneg(a) == F::fzero(),
    ensures
        a == F::fzero(),
{
    F::law_add_zero(a);
    F::law_add_neg(a);
}

/// `0 - a == -a`.
pub proof fn lemma_zero_sub<F: FieldLaws>(a: F)
    ensures
        F::fsub(F::fzero(), a) == F::fneg(a),
{
    F::law_sub(F::fzero(), a);
    lemma_zero_add(F::fneg(a));
}

/// A normalized polynomial whose coefficients are all zero is empty.
pub proof fn lemma_normalized_zero_is_empty<F: Field>(p: Polynomial<F>)
    requires
        p.is_normalized(),
        forall|e: int| #[trigger] p.coef(e) == F::fzero(),
    ensures
        p.coefs@.len() == 0,
        p.zero_pow_idx == 0,
{
    if p.coefs@.len() > 0 {
        let e = p.coefs@.len() - 1 - p.zero_pow_idx;
        assert(p.coef(e) == p.coefs@.last());
    }
}

/// Normalizing twice gives what normalizing once gave, and a normalized
/// polynomial has a nonzero highest coefficient and, when it stores a
/// negative exponent, a nonzero lowest one (or is empty).
pub proof fn law_normalize_idempotent<F: Field>(
    p: Polynomial<F>,
    once: Polynomial<F>,
    twice: Polynomial<F>,
)
    requires
        trims(once.coefs@, once.zero_pow_idx as int, p.coefs@, p.zero_pow_idx as int),
        trims(twice.coefs@, twice.zero_pow_idx as int, once.coefs@, once.zero_pow_idx as int),
    ensures
        twice.coefs@ == once.coefs@,
        twice.zero_pow_idx == once.zero_pow_idx,
        once.is_normalized(),
        once.coefs@.len() > 0 ==> once.coefs@.last() != F::fzero(),
        once.coefs@.len() > 0 && once.zero_pow_idx > 0 ==> once.coefs@[0] != F::fzero(),
{
    let s = once.coefs@;
    let z = once.zero_pow_idx as int;
    let r = twice.coefs@;
    let rz = twice.zero_pow_idx as int;
    if r.len() == 0 {
        if s.len() > 0 {
            assert(s[s.len() - 1] == F::fzero());
        }
    } else {
        let lo = z - rz;
        if lo > 0 {
            assert(s.subrange(0, lo)[0] == s[0]);
        }
        if lo + r.len() < s.len() {
            assert(s.subrange(lo + r.len(), s.len() as int)[s.len() - 1 - lo - r.len()] == s[s.len()
                - 1]);
        }
        assert(r =~= s);
    }
}

/// A polynomial plus its negation is the zero polynomial.
pub proof fn law_add_negation<F: FieldLaws>(p: Polynomial<F>, neg: Polynomial<F>, sum: Polynomial<F>)
    requires
        p.valid(),
        is_negation(p, neg),
        is_sum(p, neg, sum),
    ensures
        sum.coefs@.len() == 0,
        sum.zero_pow_idx == 0,
{
    let t = choose|t: Seq<F>|
        trims(t, neg.zero_pow_idx as int, p.coefs@, p.zero_pow_idx as int) && neg.coefs@
            == Seq::new(t.len(), |i: int| F::fneg(t[i]));
    let tz = neg.zero_pow_idx as int;
    Polynomial::<F>::lemma_trims(t, tz, p.coefs@, p.zero_pow_idx as int);
    assert forall|e: int| #[trigger] sum.coef(e) == F::fzero() by {
        assert(sum.coef(e) == add_at(p, neg, e));
        assert(coef_of(t, tz, e) == p.coef(e));
        if neg.stores(e) {
            assert(neg.coef(e) == F::fneg(t[e + tz]));
            F::law_add_neg(p.coef(e));
        }
    }
    lemma_normalized_zero_is_empty(sum);
}

/// `p + (zero - p)` is the zero polynomial.
pub proof fn law_add_zero_minus<F: FieldLaws>(
    p: Polynomial<F>,
    zero: Polynomial<F>,
    diff: Polynomial<F>,
    sum: Polynomial<F>,
)
    requires
        p.valid(),
        zero.coefs@.len() == 0,
        is_difference(zero, p, diff),
        is_sum(p, diff, sum),
    ensures
        sum.coefs@.len() == 0,
        sum.zero_pow_idx == 0,
{
    assert forall|e: int| #[trigger] sum.coef(e) == F::fzero() by {
        assert(sum.coef(e) == add_at(p, diff, e));
        assert(diff.coef(e) == sub_at(zero, p, e));
        assert(zero.coef(e) == F::fzero());
        if p.stores(e) {
            lemma_zero_sub(p.coef(e));
        }
        if diff.stores(e) {
            if p.stores(e) {
                F::law_add_neg(p.coef(e));
            } else {
                F::law_add_zero(F::fzero());
            }
        } else if p.stores(e) {
            lemma_neg_zero_inv(p.coef(e));
        }
    }
    lemma_normalized_zero_is_empty(sum);
}

/// `p * one` has the coefficients of `p`.
pub proof fn law_mul_one<F: FieldLaws>(p: Polynomial<F>, one: Polynomial<F>, prod: Polynomial<F>)
    requires
        one.zero_pow_idx == 0,
        one.coefs@ == seq![F::fone()],
        is_product(p, one, prod),
    ensures
        prod.same_value(&p),
{
    F::law_nontrivial();
    assert forall|e: int| #[trigger] prod.coef(e) == p.coef(e) by {
        assert(prod.coef(e) == mul_at(p, one, e));
        assert(mul_acc(p, one, 0, e) is None);
        assert forall|i: int| 0 <= i < p.coefs@.len() implies #[trigger] term_seq(
            p.coefs@,
            F::fone(),
            0,
        )[i] == p.coefs@[i] by {
            F::law_mul_one(p.coefs@[i]);
        }
        assert(term_seq(p.coefs@, F::fone(), 0) =~= p.coefs@);
        assert(mul_acc(p, one, 1, e) == Some(coef_of(p.coefs@, p.zero_pow_idx as int, e)));
    }
}

/// Lowering every exponent by `k` (`shr_lossles`) and then storing `k`
/// more exponents below (`extend_right`) keeps the stored coefficients,
/// after `k` new zeros, and moves every coefficient `k` exponents down.
pub proof fn law_shift_round_trip<F: Field>(
    p: Polynomial<F>,
    k: nat,
    shifted: Polynomial<F>,
    extended: Polynomial<F>,
)
    requires
        shifted.coefs@ == p.coefs@,
        shifted.zero_pow_idx == p.zero_pow_idx + k,
        extended.zero_pow_idx == shifted.zero_pow_idx + k,
        extended.coefs@ == copies(k, F::fzero()) + shifted.coefs@,
    ensures
        extended.coefs@.subrange(k as int, extended.coefs@.len() as int) == p.coefs@,
        forall|e: int| #[trigger] extended.coef(e - k) == p.coef(e),
{
    assert(extended.coefs@.subrange(k as int, extended.coefs@.len() as int) =~= p.coefs@);
    assert forall|e: int| #[trigger] extended.coef(e - k) == p.coef(e) by {
        let j = e - k + extended.zero_pow_idx;
        if 0 <= e + p.zero_pow_idx < p.coefs@.len() {
            assert(extended.coefs@[j] == p.coefs@[e + p.zero_pow_idx]);
        }
    }
}

/// The normalized form of a value is unique: two normalized
/// representations with the same coefficient at every exponent are the
/// same.
pub proof fn lemma_normalized_unique<F: Field>(r1: Seq<F>, z1: int, r2: Seq<F>, z2: int)
    requires
        0 <= z1,
        0 <= z2,
        r1.len() == 0 ==> z1 == 0,
        r2.len() == 0 ==> z2 == 0,
        r1.len() > 0 ==> r1.last() != F::fzero(),
        r2.len() > 0 ==> r2.last() != F::fzero(),
        r1.len() > 0 && z1 > 0 ==> r1[0] != F::fzero(),
        r2.len() > 0 && z2 > 0 ==> r2[0] != F::fzero(),
        forall|e: int| #[trigger] coef_of(r1, z1, e) == coef_of(r2, z2, e),
    ensures
        r1 == r2,
        z1 == z2,
{
    if r1.len() > 0 {
        assert(coef_of(r1, z1, r1.len() - 1 - z1) == r1.last());
        assert(coef_of(r1, z1, r1.len() - 1 - z1) == coef_of(r2, z2, r1.len() - 1 - z1));
    }
    if r2.len() > 0 {
        assert(coef_of(r2, z2, r2.len() - 1 - z2) == r2.last());
        assert(coef_of(r1, z1, r2.len() - 1 - z2) == coef_of(r2, z2, r2.len() - 1 - z2));
    }
    if r1.len() == 0 && r2.len() == 0 {
        assert(r1 =~= r2);
    }
    if r1.len() > 0 && r2.len() > 0 {
        let t1 = r1.len() - 1 - z1;
        let t2 = r2.len() - 1 - z2;
        assert(coef_of(r1, z1, t1) == coef_of(r2, z2, t1));
        assert(coef_of(r1, z1, t2) == coef_of(r2, z2, t2));
        assert(coef_of(r1, z1, -z1) == coef_of(r2, z2, -z1));
        assert(coef_of(r1, z1, -z2) == coef_of(r2, z2, -z2));
        if z1 > 0 {
            assert(coef_of(r1, z1, -z1) == r1[0]);
        }
        if z2 > 0 {
            assert(coef_of(r2, z2, -z2) == r2[0]);
        }
        assert(z1 == z2);
        assert(r1.len() == r2.len());
        assert forall|i: int| 0 <= i < r1.len() implies r1[i] == r2[i] by {
            assert(coef_of(r1, z1, i - z1) == r1[i]);
            assert(coef_of(r2, z2, i - z2) == r2[i]);
        }
        assert(r1 =~= r2);
    }
}

/// Normalizing gives one result: two results of `trims` on the same
/// coefficients are the same.
pub proof fn lemma_trims_unique<F: Field>(r1: Seq<F>, z1: int, r2: Seq<F>, z2: int, s: Seq<F>, z: int)
    requires
        trims(r1, z1, s, z),
        trims(r2, z2, s, z),
    ensures
        r1 == r2,
        z1 == z2,
{
    Polynomial::<F>::lemma_trims(r1, z1, s, z);
    Polynomial::<F>::lemma_trims(r2, z2, s, z);
    lemma_normalized_unique(r1, z1, r2, z2);
}

/// Addition is commutative: `a + b` and `b + a` have the same coefficient
/// at every exponent.
pub proof fn law_add_commutative<F: FieldLaws>(
    a: Polynomial<F>,
    b: Polynomial<F>,
    ab: Polynomial<F>,
    ba: Polynomial<F>,
)
    requires
        is_sum(a, b, ab),
        is_sum(b, a, ba),
    ensures
        ab.same_value(&ba),
        ab.coefs@ == ba.coefs@,
        ab.zero_pow_idx == ba.zero_pow_idx,
{
    assert forall|e: int| #[trigger] ab.coef(e) == ba.coef(e) by {
        assert(ab.coef(e) == add_at(a, b, e));
        assert(ba.coef(e) == add_at(b, a, e));
        F::law_add_comm(a.coef(e), b.coef(e));
        lemma_zero_add(a.coef(e));
        lemma_zero_add(b.coef(e));
    }
    assert forall|e: int| #[trigger] coef_of(ab.coefs@, ab.zero_pow_idx as int, e) == coef_of(
        ba.coefs@,
        ba.zero_pow_idx as int,
        e,
    ) by {
        assert(ab.coef(e) == ba.coef(e));
    }
    lemma_normalized_unique(ab.coefs@, ab.zero_pow_idx as int, ba.coefs@, ba.zero_pow_idx as int);
}

/// A product with an operand whose coefficients are all zero is the empty
/// polynomial.
pub proof fn law_mul_zero_operand<F: FieldLaws>(a: Polynomial<F>, b: Polynomial<F>, r: Polynomial<F>)
    requires
        a.is_zero_value() || b.is_zero_value(),
        is_product(a, b, r),
    ensures
        r.coefs@.len() == 0,
        r.zero_pow_idx == 0,
{
    assert forall|e: int| #[trigger] r.coef(e) == F::fzero() by {
        let f = crate::division_laws::product_terms(a, b, e);
        crate::division_laws::lemma_mul_acc_sum(a, b, b.coefs@.len(), e);
        assert forall|j: int| 0 <= j < b.coefs@.len() implies #[trigger] f(j) == F::fzero() by {
            crate::sums::lemma_zero_mul(b.coefs@[j]);
            crate::sums::lemma_zero_mul(a.coef(e - (j - b.zero_pow_idx)));
            let x = e - (j - b.zero_pow_idx);
            if a.is_zero_value() {
                if 0 <= x + a.zero_pow_idx < a.coefs@.len() {
                    assert(a.coefs@[x + a.zero_pow_idx] == F::fzero());
                }
            } else {
                assert(b.coefs@[j] == F::fzero());
            }
        }
        crate::sums::lemma_lsum_zero_tail(f, 0, b.coefs@.len());
        assert(crate::sums::lsum(f, 0) == F::fzero());
        assert(r.coef(e) == mul_at(a, b, e));
    }
    lemma_normalized_zero_is_empty(r);
}

} // verus!
