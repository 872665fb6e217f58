//! Finite sums over a field, and the facts about them that the division
//! law needs.
use crate::field::{Field, FieldLaws};
use vstd::prelude::*;

verus! {

/// `f(0) + f(1) + ... + f(n - 1)`, added from the left.
pub open spec fn lsum<F: Field>(f: spec_fn(int) -> F, n: nat) -> F
    decreases n,
{
    if n == 0 {
        F::fzero()
    } else {
        F::fadd(lsum(f, (n - 1) as nat), f(n - 1))
    }
}

/// Zero times anything is zero.
pub proof fn lemma_zero_mul<F: FieldLaws>(a: F)
    ensures
        F::fmul(F::fzero(), a) == F::fzero(),
        F::fmul(a, F::fzero()) == F::fzero(),
{
    let z = F::fzero();
    let p = F::fmul(a, z);
    F::law_add_zero(z);
    F::law_distrib(a, z, z);
    assert(F::fadd(p, p) == p);
    F::law_add_neg(p);
    F::law_add_assoc(p, p, F::fneg(p));
    F::law_add_zero(p);
    F::law_mul_comm(a, z);
}

/// An additive inverse is unique.
pub proof fn lemma_neg_unique<F: FieldLaws>(a: F, b: F)
    requires
        F::fadd(a, b) == F::fzero(),
    ensures
        b == F::fneg(a),
{
    F::law_add_zero(b);
    F::law_add_neg(a);
    F::law_add_assoc(b, a, F::fneg(a));
    F::law_add_comm(b, a);
    F::law_add_comm(F::fzero(), F::fneg(a));
    F::law_add_zero(F::fneg(a));
}

/// Negation distributes over addition.
pub proof fn lemma_neg_add<F: FieldLaws>(a: F, b: F)
    ensures
        F::fneg(F::fadd(a, b)) == F::fadd(F::fneg(a), F::fneg(b)),
{
    let na = F::fneg(a);
    let nb = F::fneg(b);
    F::law_add_assoc(F::fadd(a, b), na, nb);
    F::law_add_assoc(a, b, na);
    F::law_add_comm(b, na);
    F::law_add_assoc(a, na, b);
    F::law_add_neg(a);
    F::law_add_comm(F::fzero(), b);
    F::law_add_zero(b);
    F::law_add_neg(b);
    lemma_neg_unique(F::fadd(a, b), F::fadd(na, nb));
}

/// `(a - b) - c == a - (b + c)`.
pub proof fn lemma_sub_sub<F: FieldLaws>(a: F, b: F, c: F)
    ensures
        F::fsub(F::fsub(a, b), c) == F::fsub(a, F::fadd(b, c)),
{
    F::law_sub(a, b);
    F::law_sub(F::fsub(a, b), c);
    F::law_sub(a, F::fadd(b, c));
    lemma_neg_add(b, c);
    F::law_add_assoc(a, F::fneg(b), F::fneg(c));
}

/// `a - 0 == a`.
pub proof fn lemma_sub_zero<F: FieldLaws>(a: F)
    ensures
        F::fsub(a, F::fzero()) == a,
{
    F::law_sub(a, F::fzero());
    F::law_add_neg(F::fzero());
    F::law_add_comm(F::fzero(), F::fneg(F::fzero()));
    F::law_add_zero(F::fneg(F::fzero()));
    F::law_add_zero(a);
}

/// `a - a == 0`.
pub proof fn lemma_sub_self<F: FieldLaws>(a: F)
    ensures
        F::fsub(a, a) == F::fzero(),
{
    F::law_sub(a, a);
    F::law_add_neg(a);
}

/// `x + (p - x) == p`.
pub proof fn lemma_add_sub_cancel<F: FieldLaws>(x: F, p: F)
    ensures
        F::fadd(x, F::fsub(p, x)) == p,
{
    F::law_sub(p, x);
    F::law_add_comm(p, F::fneg(x));
    F::law_add_assoc(x, F::fneg(x), p);
    F::law_add_neg(x);
    F::law_add_comm(F::fzero(), p);
    F::law_add_zero(p);
}

/// `a / a == 1` for nonzero `a`.
pub proof fn lemma_div_self<F: FieldLaws>(a: F)
    requires
        a != F::fzero(),
    ensures
        F::fdiv(a, a) == F::fone(),
{
    let x = F::fdiv(a, a);
    let inv = F::fdiv(F::fone(), a);
    F::law_div(a, a);
    F::law_div(F::fone(), a);
    F::law_mul_one(x);
    F::law_mul_assoc(x, a, inv);
    F::law_mul_comm(a, inv);
}

/// `b * (a / b) == a` for nonzero `b`.
pub proof fn lemma_mul_div<F: FieldLaws>(a: F, b: F)
    requires
        b != F::fzero(),
    ensures
        F::fmul(b, F::fdiv(a, b)) == a,
{
    F::law_div(a, b);
    F::law_mul_comm(F::fdiv(a, b), b);
}

/// Terms that are zero beyond `n` add nothing.
pub proof fn lemma_lsum_zero_tail<F: FieldLaws>(f: spec_fn(int) -> F, n: nat, m: nat)
    requires
        n <= m,
        forall|j: int| n <= j < m ==> #[trigger] f(j) == F::fzero(),
    ensures
        lsum(f, m) == lsum(f, n),
    decreases m - n,
{
    if m > n {
        lemma_lsum_zero_tail(f, n, (m - 1) as nat);
        F::law_add_zero(lsum(f, (m - 1) as nat));
    }
}

/// Sums of functions that agree below `n` agree.
pub proof fn lemma_lsum_ext<F: Field>(f: spec_fn(int) -> F, g: spec_fn(int) -> F, n: nat)
    requires
        forall|j: int| 0 <= j < n ==> #[trigger] f(j) == g(j),
    ensures
        lsum(f, n) == lsum(g, n),
    decreases n,
{
    if n > 0 {
        lemma_lsum_ext(f, g, (n - 1) as nat);
    }
}

/// The first term can be taken out in front.
pub proof fn lemma_lsum_front<F: FieldLaws>(f: spec_fn(int) -> F, n: nat)
    requires
        n > 0,
    ensures
        lsum(f, n) == F::fadd(f(0), lsum(|j: int| f(j + 1), (n - 1) as nat)),
    decreases n,
{
    let g = |j: int| f(j + 1);
    if n == 1 {
        lemma_zero_add(f(0));
        F::law_add_zero(f(0));
        assert(lsum(f, 1) == F::fadd(lsum(f, 0), f(0)));
        assert(lsum(g, 0) == F::fzero());
    } else {
        lemma_lsum_front(f, (n - 1) as nat);
        F::law_add_assoc(f(0), lsum(g, (n - 2) as nat), f(n - 1));
        assert(g(n - 2) == f(n - 1));
        assert(lsum(g, (n - 1) as nat) == F::fadd(lsum(g, (n - 2) as nat), g(n - 2)));
        assert(lsum(f, n) == F::fadd(lsum(f, (n - 1) as nat), f(n - 1)));
    }
}

/// Zero is a left identity of addition.
pub proof fn lemma_zero_add<F: FieldLaws>(a: F)
    ensures
        F::fadd(F::fzero(), a) == a,
{
    F::law_add_comm(F::fzero(), a);
    F::law_add_zero(a);
}

/// Adding the terms in the reverse order gives the same sum.
pub proof fn lemma_lsum_reverse<F: FieldLaws>(f: spec_fn(int) -> F, n: nat)
    ensures
        lsum(|t: int| f(n - 1 - t), n) == lsum(f, n),
    decreases n,
{
    let r = |t: int| f(n - 1 - t);
    if n > 0 {
        let g = |j: int| f(j + 1);
        lemma_lsum_reverse(g, (n - 1) as nat);
        let rg = |t: int| g((n - 1) - 1 - t);
        lemma_lsum_ext(rg, r, (n - 1) as nat);
        lemma_lsum_front(f, n);
        F::law_add_comm(f(0), lsum(g, (n - 1) as nat));
        assert(r(n - 1) == f(0));
    }
}

} // verus!
