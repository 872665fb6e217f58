//! The Laurent polynomial: a run of coefficients and the index at which
//! the exponent zero sits.
use crate::field::Field;
use vstd::prelude::*;

verus! {

/// The largest exponent, in absolute value, that a polynomial's stored
/// range may reach for the arithmetic below: twice it, plus one, is the
/// largest `isize` on a 32-bit target (`i32::MAX`), so that exponents and
/// indices computed from two such ranges fit an `isize` on every target.
pub const MAX_POW: usize = 0x3fff_ffff;

/// The bound on the operands of division, whose quotient's exponents reach
/// the difference of the operands' (half of `MAX_POW`).
pub const HALF_POW: usize = 0x1fff_ffff;

/// `sum_{i} coefs[i] * x^(i - zero_pow_idx)`.
///
/// Index `zero_pow_idx` of `coefs` holds the coefficient of `x^0`; the
/// indices below it hold the negative exponents.
#[derive(Clone, Debug)]
pub struct Polynomial<F: Field> {
    pub coefs: Vec<F>,
    pub zero_pow_idx: usize,
}

/// Every element is a valid field value.
pub open spec fn all_valid<F: Field>(s: Seq<F>) -> bool {
    forall|i: int| 0 <= i < s.len() ==> F::fvalid(#[trigger] s[i])
}

/// Every element is zero.
pub open spec fn all_zero<F: Field>(s: Seq<F>) -> bool {
    forall|i: int| 0 <= i < s.len() ==> #[trigger] s[i] == F::fzero()
}

/// `n` copies of `v`.
pub open spec fn copies<F>(n: nat, v: F) -> Seq<F> {
    Seq::new(n, |i: int| v)
}

/// The coefficient of `x^e` in the polynomial stored as `s` with exponent
/// zero at index `z`; zero outside the stored range.
pub open spec fn coef_of<F: Field>(s: Seq<F>, z: int, e: int) -> F {
    if 0 <= e + z < s.len() {
        s[e + z]
    } else {
        F::fzero()
    }
}

/// `r` and `rz` are what normalizing `s` with zero index `z` gives: the
/// zero coefficients at the top are dropped, and those at the bottom while
/// the exponent zero stays at or above the first index.
pub open spec fn trims<F: Field>(r: Seq<F>, rz: int, s: Seq<F>, z: int) -> bool {
    &&& 0 <= rz <= z
    &&& r.len() == 0 ==> rz == 0 && all_zero(s)
    &&& r.len() > 0 ==> {
        &&& z - rz + r.len() <= s.len()
        &&& r == s.subrange(z - rz, z - rz + r.len())
        &&& all_zero(s.subrange(0, z - rz))
        &&& all_zero(s.subrange(z - rz + r.len(), s.len() as int))
        &&& r.last() != F::fzero()
        &&& rz > 0 ==> r[0] != F::fzero()
    }
}

/// `x` held to `0 ..= len`.
pub open spec fn clamp(x: int, len: int) -> int {
    if x < 0 {
        0
    } else if x > len {
        len
    } else {
        x
    }
}

/// Each element multiplied by `c`.
pub open spec fn scale_seq<F: Field>(s: Seq<F>, c: F) -> Seq<F> {
    Seq::new(s.len(), |i: int| F::fmul(s[i], c))
}

/// Each element divided by `c`.
pub open spec fn shrink_seq<F: Field>(s: Seq<F>, c: F) -> Seq<F> {
    Seq::new(s.len(), |i: int| F::fdiv(s[i], c))
}

impl<F: Field> Polynomial<F> {
    pub open spec fn coef(&self, e: int) -> F {
        coef_of(self.coefs@, self.zero_pow_idx as int, e)
    }

    /// Every coefficient is a valid field value.
    pub open spec fn valid(&self) -> bool {
        all_valid(self.coefs@)
    }

    /// The stored range lies within exponents `-lim ..= lim`.
    pub open spec fn within(&self, lim: int) -> bool {
        &&& self.zero_pow_idx <= lim
        &&& self.coefs@.len() <= self.zero_pow_idx + lim + 1
    }

    /// The highest stored coefficient is nonzero, and so is the lowest one
    /// when it has a negative exponent; the empty polynomial has its zero
    /// index at 0.
    pub open spec fn is_normalized(&self) -> bool {
        &&& self.coefs@.len() == 0 ==> self.zero_pow_idx == 0
        &&& self.coefs@.len() > 0 ==> self.coefs@.last() != F::fzero()
        &&& self.coefs@.len() > 0 && self.zero_pow_idx > 0 ==> self.coefs@[0] != F::fzero()
    }

    /// Both polynomials have the same coefficient at every exponent.
    pub open spec fn same_value(&self, other: &Self) -> bool {
        forall|e: int| #[trigger] self.coef(e) == other.coef(e)
    }

    /// Every coefficient is zero.
    pub open spec fn is_zero_value(&self) -> bool {
        all_zero(self.coefs@)
    }

    /// The highest stored exponent.
    pub open spec fn deg(&self) -> int {
        self.coefs@.len() - self.zero_pow_idx - 1
    }

    pub fn new() -> (r: Self)
        ensures
            r.coefs@ == Seq::<F>::empty(),
            r.zero_pow_idx == 0,
    {
        Polynomial { coefs: Vec::new(), zero_pow_idx: 0 }
    }

    pub fn with_capacity(capacity: usize) -> (r: Self)
        ensures
            r.coefs@ == Seq::<F>::empty(),
            r.zero_pow_idx == 0,
    {
        Polynomial { coefs: Vec::with_capacity(capacity), zero_pow_idx: 0 }
    }

    /// Drops zero coefficients at the top, and at the bottom while they
    /// have negative exponents, keeping every coefficient's exponent.
    pub fn normalize(&mut self)
        requires
            old(self).valid(),
        ensures
            final(self).valid() && trims(
                final(self).coefs@,
                final(self).zero_pow_idx as int,
                old(self).coefs@,
                old(self).zero_pow_idx as int,
            ),
    {
        let ghost s = self.coefs@;
        let ghost z = self.zero_pow_idx as int;
        let zero = F::zero_el();
        let mut hi: usize = self.coefs.len();
        while hi > 0 && self.coefs[hi - 1].eq_el(&zero)
            invariant
                self.coefs@ == s,
                self.zero_pow_idx == z,
                all_valid(s),
                zero == F::fzero(),
                F::fvalid(zero),
                hi <= s.len(),
                all_valid(s) ==> all_zero(s.subrange(hi as int, s.len() as int)),
            decreases hi,
        {
            hi = hi - 1;
            assert(all_valid(s) ==> all_zero(s.subrange(hi as int, s.len() as int))) by {
                assert forall|i: int| all_valid(s) && 0 <= i < s.len() - hi implies
                    #[trigger] s.subrange(hi as int, s.len() as int)[i] == F::fzero() by {
                    if i > 0 {
                        assert(s.subrange(hi as int, s.len() as int)[i]
                            == s.subrange(hi + 1, s.len() as int)[i - 1]);
                    }
                }
            }
        }
        let mut lo: usize = 0;
        while lo < hi && lo < self.zero_pow_idx && self.coefs[lo].eq_el(&zero)
            invariant
                self.coefs@ == s,
                self.zero_pow_idx == z,
                all_valid(s),
                zero == F::fzero(),
                F::fvalid(zero),
                lo <= hi <= s.len(),
                lo <= z,
                all_valid(s) ==> all_zero(s.subrange(0, lo as int)),
            decreases hi - lo,
        {
            lo = lo + 1;
            assert(all_valid(s) ==> all_zero(s.subrange(0, lo as int))) by {
                assert forall|i: int| all_valid(s) && 0 <= i < lo implies
                    #[trigger] s.subrange(0, lo as int)[i] == F::fzero() by {
                    if i < lo - 1 {
                        assert(s.subrange(0, lo as int)[i] == s.subrange(0, lo - 1)[i]);
                    }
                }
            }
        }
        self.coefs.truncate(hi);
        let kept = self.coefs.split_off(lo);
        self.coefs = kept;
        if hi == lo {
            self.zero_pow_idx = 0;
            assert(all_valid(s) ==> all_zero(s)) by {
                assert forall|i: int| all_valid(s) && 0 <= i < s.len() implies #[trigger] s[i] == F::fzero() by {
                    if i < lo {
                        assert(s.subrange(0, lo as int)[i] == s[i]);
                    } else {
                        assert(s.subrange(hi as int, s.len() as int)[i - hi] == s[i]);
                    }
                }
            }
        } else {
            self.zero_pow_idx = self.zero_pow_idx - lo;
        }
        assert(self.coefs@ == s.subrange(lo as int, hi as int));
    }

    /// What `trims` keeps: the value, and the normalized shape.
    pub proof fn lemma_trims(r: Seq<F>, rz: int, s: Seq<F>, z: int)
        requires
            trims(r, rz, s, z),
        ensures
            forall|e: int| #[trigger] coef_of(r, rz, e) == coef_of(s, z, e),
            r.len() == 0 ==> rz == 0,
            r.len() > 0 ==> r.last() != F::fzero(),
            r.len() > 0 && rz > 0 ==> r[0] != F::fzero(),
            all_valid(s) ==> all_valid(r),
    {
        assert forall|e: int| #[trigger] coef_of(r, rz, e) == coef_of(s, z, e) by {
            let j = e + z;
            if r.len() > 0 {
                let lo = z - rz;
                if 0 <= j < lo {
                    assert(s.subrange(0, lo)[j] == s[j]);
                } else if lo + r.len() <= j < s.len() {
                    assert(s.subrange(lo + r.len(), s.len() as int)[j - lo - r.len()] == s[j]);
                }
            } else if 0 <= j < s.len() {
                assert(s[j] == F::fzero());
            }
        }
        if r.len() > 0 {
            let lo = z - rz;
            assert forall|i: int| 0 <= i < r.len() && all_valid(s) implies F::fvalid(#[trigger] r[i]) by {
                assert(r[i] == s[lo + i]);
            }
        }
    }

    /// The index in `coefs` of the exponent `pow`, if it is stored.
    pub fn index_of(&self, pow: isize) -> (r: Option<usize>)
        ensures
            r matches Some(i) ==> i == pow + self.zero_pow_idx && i < self.coefs@.len(),
            r is None ==> !(0 <= pow + self.zero_pow_idx < self.coefs@.len()),
    {
        let len = self.coefs.len();
        let z = self.zero_pow_idx;
        if pow >= 0 {
            let p = pow as usize;
            if z < len && p < len - z {
                Some(p + z)
            } else {
                None
            }
        } else {
            let m = (-(pow + 1)) as usize + 1;
            if m <= z && z - m < len {
                Some(z - m)
            } else {
                None
            }
        }
    }

    pub fn coefs(&self) -> (r: &Vec<F>)
        ensures
            r == &self.coefs,
    {
        &self.coefs
    }

    pub fn zero_pow_idx(&self) -> (r: &usize)
        ensures
            *r == self.zero_pow_idx,
    {
        &self.zero_pow_idx
    }

    /// The highest stored exponent: `len - zero_pow_idx - 1`.
    pub fn degree(&self) -> (r: isize)
        requires
            self.within(MAX_POW as int),
        ensures
            r == self.deg(),
    {
        (self.coefs.len() as isize) - (self.zero_pow_idx as isize) - 1
    }

    /// The lowest exponent whose coefficient is nonzero, or 0 if there is none.
    pub fn init_pow(&self) -> (r: isize)
        requires
            self.valid(),
            self.within(MAX_POW as int),
        ensures
            self.is_zero_value() ==> r == 0,
            !self.is_zero_value() ==> {
                &&& 0 <= r + self.zero_pow_idx < self.coefs@.len()
                &&& self.coefs@[r + self.zero_pow_idx] != F::fzero()
                &&& all_zero(self.coefs@.subrange(0, r + self.zero_pow_idx))
            },
    {
        let zero = F::zero_el();
        let mut i: usize = 0;
        while i < self.coefs.len()
            invariant
                self.valid(),
                self.within(MAX_POW as int),
                zero == F::fzero(),
                F::fvalid(zero),
                i <= self.coefs@.len(),
                all_zero(self.coefs@.subrange(0, i as int)),
            decreases self.coefs@.len() - i,
        {
            if !self.coefs[i].eq_el(&zero) {
                return (i as isize) - (self.zero_pow_idx as isize);
            }
            i = i + 1;
            assert(all_zero(self.coefs@.subrange(0, i as int))) by {
                assert forall|k: int| 0 <= k < i implies
                    #[trigger] self.coefs@.subrange(0, i as int)[k] == F::fzero() by {
                    if k < i - 1 {
                        assert(self.coefs@.subrange(0, i as int)[k] == self.coefs@.subrange(0, i - 1)[k]);
                    }
                }
            }
        }
        assert(self.coefs@.subrange(0, i as int) == self.coefs@);
        0
    }

    /// The exponent of the lowest stored coefficient.
    pub fn init_stored_pow(&self) -> (r: isize)
        requires
            self.within(MAX_POW as int),
        ensures
            r == -self.zero_pow_idx,
    {
        if self.zero_pow_idx > 0 {
            -(self.zero_pow_idx as isize)
        } else {
            0
        }
    }

    /// The lowest stored coefficient.
    pub fn first(&self) -> (r: Option<&F>)
        ensures
            self.coefs@.len() == 0 ==> r is None,
            self.coefs@.len() > 0 ==> r == Some(&self.coefs@[0]),
    {
        if self.coefs.len() == 0 {
            None
        } else {
            Some(&self.coefs[0])
        }
    }

    /// The highest stored coefficient.
    pub fn last(&self) -> (r: Option<&F>)
        ensures
            self.coefs@.len() == 0 ==> r is None,
            self.coefs@.len() > 0 ==> r == Some(&self.coefs@.last()),
    {
        if self.coefs.len() == 0 {
            None
        } else {
            Some(&self.coefs[self.coefs.len() - 1])
        }
    }

    /// The coefficient at index `idx` of `coefs`.
    pub fn get_at(&self, idx: usize) -> (r: Option<&F>)
        ensures
            idx < self.coefs@.len() ==> r == Some(&self.coefs@[idx as int]),
            idx >= self.coefs@.len() ==> r is None,
    {
        if idx < self.coefs.len() {
            Some(&self.coefs[idx])
        } else {
            None
        }
    }

    /// The stored coefficient of `x^pow`; `None` outside the stored range,
    /// where the coefficient is zero.
    pub fn get(&self, pow: isize) -> (r: Option<&F>)
        ensures
            0 <= pow + self.zero_pow_idx < self.coefs@.len() ==> r == Some(
                &self.coefs@[pow + self.zero_pow_idx],
            ),
            !(0 <= pow + self.zero_pow_idx < self.coefs@.len()) ==> r is None,
    {
        match self.index_of(pow) {
            Some(i) => Some(&self.coefs[i]),
            None => None,
        }
    }

    /// The coefficient at index `idx` of `coefs`, to change in place.
    pub fn get_at_mut(&mut self, idx: usize) -> (r: Option<&mut F>)
        ensures
            idx >= old(self).coefs@.len() ==> r is None && *final(self) == *old(self),
            idx < old(self).coefs@.len() ==> (r matches Some(c) && *c == old(self).coefs@[idx as int]
                && final(self).zero_pow_idx == old(self).zero_pow_idx
                && final(self).coefs@ == old(self).coefs@.update(idx as int, *final(c))),
    {
        if idx < self.coefs.len() {
            Some(&mut self.coefs[idx])
        } else {
            None
        }
    }

    /// The stored coefficient of `x^pow`, to change in place.
    pub fn get_mut(&mut self, pow: isize) -> (r: Option<&mut F>)
        ensures
            !(0 <= pow + old(self).zero_pow_idx < old(self).coefs@.len()) ==> r is None
                && *final(self) == *old(self),
            0 <= pow + old(self).zero_pow_idx < old(self).coefs@.len() ==> (r matches Some(c)
                && *c == old(self).coefs@[pow + old(self).zero_pow_idx]
                && final(self).zero_pow_idx == old(self).zero_pow_idx
                && final(self).coefs@ == old(self).coefs@.update(
                pow + old(self).zero_pow_idx,
                *final(c),
            )),
    {
        match self.index_of(pow) {
            Some(i) => Some(&mut self.coefs[i]),
            None => None,
        }
    }

    /// Replaces the indices `start .. end` of `coefs` with `replace_with`.
    pub fn set_at(&mut self, start: usize, end: usize, replace_with: Vec<F>)
        requires
            start <= end <= old(self).coefs@.len(),
        ensures
            final(self).zero_pow_idx == old(self).zero_pow_idx,
            final(self).coefs@ == old(self).coefs@.subrange(0, start as int) + replace_with@
                + old(self).coefs@.subrange(end as int, old(self).coefs@.len() as int),
            old(self).valid() && all_valid(replace_with@) ==> final(self).valid(),
    {
        let ghost rw = replace_with@;
        let mut replace_with = replace_with;
        let mut tail = self.coefs.split_off(end);
        self.coefs.truncate(start);
        self.coefs.append(&mut replace_with);
        self.coefs.append(&mut tail);
        proof {
            let s0 = old(self).coefs@;
            assert forall|i: int|
                0 <= i < self.coefs@.len() && all_valid(s0) && all_valid(rw) implies
                F::fvalid(#[trigger] self.coefs@[i]) by {
                let r = old(self).coefs@.subrange(0, start as int) + rw;
                if i < start {
                    assert(self.coefs@[i] == s0[i]);
                } else if i < r.len() {
                    assert(self.coefs@[i] == rw[i - start]);
                } else {
                    assert(self.coefs@[i] == s0[i - r.len() + end]);
                }
            }
        }
    }

    /// The index of `coefs` that the exponent `pow` maps to, held to the
    /// stored range `0 ..= len`.
    fn clamped_index(&self, pow: isize) -> (r: usize)
        ensures
            r == clamp(pow + self.zero_pow_idx, self.coefs@.len() as int),
    {
        let len = self.coefs.len();
        let z = self.zero_pow_idx;
        if pow >= 0 {
            let p = pow as usize;
            if z <= len && p <= len - z {
                p + z
            } else {
                len
            }
        } else {
            let m = (-(pow + 1)) as usize + 1;
            if m >= z {
                0
            } else if z - m > len {
                len
            } else {
                z - m
            }
        }
    }

    /// Replaces the coefficients of the exponents `range_start .. range_end`,
    /// with the range held to what is stored: nothing grows.
    pub fn set(&mut self, range_start: isize, range_end: isize, replace_with: Vec<F>)
        requires
            clamp(range_start + old(self).zero_pow_idx, old(self).coefs@.len() as int) <= clamp(
                range_end + old(self).zero_pow_idx,
                old(self).coefs@.len() as int,
            ),
        ensures
            final(self).zero_pow_idx == old(self).zero_pow_idx,
            ({
                let n = old(self).coefs@.len() as int;
                let a = clamp(range_start + old(self).zero_pow_idx, n);
                let b = clamp(range_end + old(self).zero_pow_idx, n);
                final(self).coefs@ == old(self).coefs@.subrange(0, a) + replace_with@
                    + old(self).coefs@.subrange(b, n)
            }),
            old(self).valid() && all_valid(replace_with@) ==> final(self).valid(),
    {
        let a = self.clamped_index(range_start);
        let b = self.clamped_index(range_end);
        self.set_at(a, b, replace_with);
    }

    /// Inserts `elements` before index `index` of `coefs`.
    pub fn insert(&mut self, index: usize, elements: Vec<F>)
        requires
            index <= old(self).coefs@.len(),
        ensures
            final(self).zero_pow_idx == old(self).zero_pow_idx,
            final(self).coefs@ == old(self).coefs@.subrange(0, index as int) + elements@
                + old(self).coefs@.subrange(index as int, old(self).coefs@.len() as int),
            old(self).valid() && all_valid(elements@) ==> final(self).valid(),
    {
        self.set_at(index, index, elements)
    }

    /// Inserts `element` before index `index` of `coefs`.
    pub fn insert_coef(&mut self, index: usize, element: F)
        requires
            index <= old(self).coefs@.len(),
        ensures
            final(self).zero_pow_idx == old(self).zero_pow_idx,
            final(self).coefs@ == old(self).coefs@.insert(index as int, element),
            old(self).valid() && F::fvalid(element) ==> final(self).valid(),
    {
        self.coefs.insert(index, element);
        assert forall|i: int|
            0 <= i < self.coefs@.len() && old(self).valid() && F::fvalid(element) implies
            F::fvalid(#[trigger] self.coefs@[i]) by {
            if i > index {
                assert(self.coefs@[i] == old(self).coefs@[i - 1]);
            }
        }
    }

    /// Drops the lowest `amount` stored coefficients, lowers the zero index
    /// by as much as it can, and normalizes.
    pub fn shr_lossy(&mut self, amount: usize)
        requires
            old(self).valid(),
        ensures
            final(self).valid(),
            ({
                let n = old(self).coefs@.len();
                let k = if amount < n { amount as int } else { n as int };
                let z = if k > old(self).zero_pow_idx { 0 } else { old(self).zero_pow_idx - k };
                trims(
                    final(self).coefs@,
                    final(self).zero_pow_idx as int,
                    old(self).coefs@.subrange(k, n as int),
                    z,
                )
            }),
    {
        let n = if self.coefs.len() < amount {
            self.coefs.len()
        } else {
            amount
        };
        let rest = self.coefs.split_off(n);
        self.coefs = rest;
        if n > self.zero_pow_idx {
            self.zero_pow_idx = 0;
        } else {
            self.zero_pow_idx = self.zero_pow_idx - n;
        }
        self.normalize();
    }

    /// Lowers every exponent by `amount`; nothing is dropped.
    pub fn shr_lossles(&mut self, amount: usize)
        requires
            old(self).zero_pow_idx + amount <= usize::MAX,
        ensures
            final(self).coefs@ == old(self).coefs@,
            final(self).zero_pow_idx == old(self).zero_pow_idx + amount,
    {
        self.zero_pow_idx = self.zero_pow_idx + amount;
    }

    /// Puts `amount` copies of `el` below the lowest stored coefficient, so
    /// that every stored coefficient moves `amount` exponents up.
    pub fn shl_with(&mut self, amount: usize, el: F)
        requires
            old(self).coefs@.len() + amount <= usize::MAX,
        ensures
            final(self).zero_pow_idx == old(self).zero_pow_idx,
            final(self).coefs@ == copies(amount as nat, el) + old(self).coefs@,
            old(self).valid() && F::fvalid(el) ==> final(self).valid(),
    {
        let mut v: Vec<F> = Vec::new();
        let mut i: usize = 0;
        while i < amount
            invariant
                i <= amount,
                v@ == copies(i as nat, el),
                F::fvalid(el) ==> all_valid(v@),
            decreases amount - i,
        {
            v.push(el.clone_el());
            i = i + 1;
            assert(v@ == copies(i as nat, el));
        }
        v.append(&mut self.coefs);
        self.coefs = v;
    }

    /// `shl_with` with zeros.
    pub fn shl(&mut self, amount: usize)
        requires
            old(self).coefs@.len() + amount <= usize::MAX,
        ensures
            final(self).zero_pow_idx == old(self).zero_pow_idx,
            final(self).coefs@ == copies(amount as nat, F::fzero()) + old(self).coefs@,
            old(self).valid() ==> final(self).valid(),
    {
        self.shl_with(amount, F::zero_el())
    }

    /// Stores `amount` more exponents below the lowest one; the value is kept.
    pub fn extend_right(&mut self, amount: usize)
        requires
            old(self).coefs@.len() + amount <= usize::MAX,
            old(self).zero_pow_idx + amount <= usize::MAX,
        ensures
            final(self).zero_pow_idx == old(self).zero_pow_idx + amount,
            final(self).coefs@ == copies(amount as nat, F::fzero()) + old(self).coefs@,
            final(self).same_value(old(self)),
            old(self).valid() ==> final(self).valid(),
    {
        self.shl(amount);
        self.zero_pow_idx = self.zero_pow_idx + amount;
        assert forall|e: int| #[trigger] self.coef(e) == old(self).coef(e) by {
            if 0 <= e + self.zero_pow_idx < amount {
            } else if amount <= e + self.zero_pow_idx < self.coefs@.len() {
                assert(self.coefs@[e + self.zero_pow_idx] == old(self).coefs@[e + old(self).zero_pow_idx]);
            }
        }
    }

    /// Stores `amount` more exponents above the highest one; the value is kept.
    pub fn extend_left(&mut self, amount: usize)
        requires
            old(self).coefs@.len() + amount <= usize::MAX,
        ensures
            final(self).zero_pow_idx == old(self).zero_pow_idx,
            final(self).coefs@ == old(self).coefs@ + copies(amount as nat, F::fzero()),
            final(self).same_value(old(self)),
            old(self).valid() ==> final(self).valid(),
    {
        let mut tail: Vec<F> = Vec::new();
        let mut i: usize = 0;
        while i < amount
            invariant
                i <= amount,
                tail@ == copies(i as nat, F::fzero()),
                all_valid(tail@),
            decreases amount - i,
        {
            tail.push(F::zero_el());
            i = i + 1;
            assert(tail@ == copies(i as nat, F::fzero()));
        }
        self.coefs.append(&mut tail);
        assert forall|e: int| #[trigger] self.coef(e) == old(self).coef(e) by {
            if 0 <= e + self.zero_pow_idx < old(self).coefs@.len() {
                assert(self.coefs@[e + self.zero_pow_idx] == old(self).coefs@[e + old(self).zero_pow_idx]);
            }
        }
    }

    /// Grows the stored range to cover `other`'s as well; the value is kept.
    pub fn align_size_to(&mut self, other: &Self)
        requires
            old(self).within(MAX_POW as int),
            other.within(MAX_POW as int),
        ensures
            final(self).zero_pow_idx == if old(self).zero_pow_idx < other.zero_pow_idx {
                other.zero_pow_idx
            } else {
                old(self).zero_pow_idx
            },
            final(self).deg() == if old(self).deg() < other.deg() {
                other.deg()
            } else {
                old(self).deg()
            },
            final(self).coefs@ == copies(
                (final(self).zero_pow_idx - old(self).zero_pow_idx) as nat,
                F::fzero(),
            ) + old(self).coefs@ + copies(
                (final(self).deg() - old(self).deg()) as nat,
                F::fzero(),
            ),
            final(self).same_value(old(self)),
            final(self).within(MAX_POW as int),
            old(self).valid() ==> final(self).valid(),
    {
        let ghost s0 = *self;
        if self.zero_pow_idx < other.zero_pow_idx {
            self.extend_right(other.zero_pow_idx - self.zero_pow_idx);
        } else {
            assert(self.coefs@ == copies(0, F::fzero()) + self.coefs@);
        }
        let ghost s1 = *self;
        if self.coefs.len() + other.zero_pow_idx < other.coefs.len() + self.zero_pow_idx {
            let k = other.coefs.len() + self.zero_pow_idx - self.coefs.len() - other.zero_pow_idx;
            self.extend_left(k);
        } else {
            assert(self.coefs@ == self.coefs@ + copies(0, F::fzero()));
        }
        assert(self.same_value(&s0)) by {
            assert forall|e: int| #[trigger] self.coef(e) == s0.coef(e) by {
                assert(self.coef(e) == s1.coef(e));
            }
        }
        assert forall|i: int| 0 <= i < self.coefs@.len() && s0.valid() implies
            F::fvalid(#[trigger] self.coefs@[i]) by {
            let k = self.zero_pow_idx - s0.zero_pow_idx;
            if k <= i < k + s0.coefs@.len() {
                assert(self.coefs@[i] == s0.coefs@[i - k]);
            }
        }
    }

    /// The polynomial whose coefficients are `vec`, the first one at the
    /// exponent `init_pow`, normalized.
    pub fn from_vec(vec: Vec<F>, init_pow: isize) -> (r: Self)
        requires
            all_valid(vec@),
            init_pow > isize::MIN,
            init_pow > 0 ==> vec@.len() + init_pow <= usize::MAX,
        ensures
            r.valid(),
            trims(
                r.coefs@,
                r.zero_pow_idx as int,
                if init_pow > 0 {
                    copies(init_pow as nat, F::fzero()) + vec@
                } else {
                    vec@
                },
                if init_pow < 0 {
                    -init_pow
                } else {
                    0
                },
            ),
    {
        let mut p = Polynomial { coefs: vec, zero_pow_idx: 0 };
        if init_pow < 0 {
            p.zero_pow_idx = (-init_pow) as usize;
        } else if init_pow > 0 {
            p.extend_right(init_pow as usize);
            p.zero_pow_idx = 0;
        }
        p.normalize();
        p
    }

    /// Multiplies every stored coefficient by `c`.
    fn scale_coefs(&mut self, c: &F)
        requires
            old(self).valid(),
            F::fvalid(*c),
        ensures
            final(self).valid(),
            final(self).zero_pow_idx == old(self).zero_pow_idx,
            final(self).coefs@ == scale_seq(old(self).coefs@, *c),
    {
        let ghost s = self.coefs@;
        let mut i: usize = 0;
        while i < self.coefs.len()
            invariant
                self.zero_pow_idx == old(self).zero_pow_idx,
                s == old(self).coefs@,
                all_valid(s),
                F::fvalid(*c),
                self.coefs@.len() == s.len(),
                i <= s.len(),
                all_valid(self.coefs@),
                forall|j: int| 0 <= j < i ==> #[trigger] self.coefs@[j] == F::fmul(s[j], *c),
                forall|j: int| i <= j < s.len() ==> #[trigger] self.coefs@[j] == s[j],
            decreases s.len() - i,
        {
            let v = self.coefs[i].mul_el(c);
            self.coefs.set(i, v);
            i = i + 1;
        }
        assert(self.coefs@ == scale_seq(s, *c));
    }

    /// Divides every stored coefficient by `c`.
    fn shrink_coefs(&mut self, c: &F)
        requires
            old(self).valid(),
            F::fvalid(*c),
            *c != F::fzero(),
        ensures
            final(self).valid(),
            final(self).zero_pow_idx == old(self).zero_pow_idx,
            final(self).coefs@ == shrink_seq(old(self).coefs@, *c),
    {
        let ghost s = self.coefs@;
        let mut i: usize = 0;
        while i < self.coefs.len()
            invariant
                self.zero_pow_idx == old(self).zero_pow_idx,
                s == old(self).coefs@,
                all_valid(s),
                F::fvalid(*c),
                *c != F::fzero(),
                self.coefs@.len() == s.len(),
                i <= s.len(),
                all_valid(self.coefs@),
                forall|j: int| 0 <= j < i ==> #[trigger] self.coefs@[j] == F::fdiv(s[j], *c),
                forall|j: int| i <= j < s.len() ==> #[trigger] self.coefs@[j] == s[j],
            decreases s.len() - i,
        {
            let v = self.coefs[i].div_el(c);
            self.coefs.set(i, v);
            i = i + 1;
        }
        assert(self.coefs@ == shrink_seq(s, *c));
    }

    /// Multiplies by `coef * x^power`: the exponents move by `power`
    /// (below the stored range for a negative one) and every coefficient
    /// is multiplied by `coef`. A negative power multiplies as well (it
    /// does not divide by `coef`), so that a product of polynomials is the
    /// schoolbook convolution whatever the signs of the exponents.
    pub fn simple_mul_mut(&mut self, coef: F, power: isize)
        requires
            old(self).valid(),
            F::fvalid(coef),
            power > isize::MIN,
            power >= 0 ==> old(self).coefs@.len() + power <= usize::MAX,
            power < 0 ==> old(self).zero_pow_idx - power <= usize::MAX,
        ensures
            final(self).valid(),
            power >= 0 ==> final(self).zero_pow_idx == old(self).zero_pow_idx
                && final(self).coefs@ == scale_seq(
                copies(power as nat, F::fzero()) + old(self).coefs@,
                coef,
            ),
            power < 0 ==> final(self).zero_pow_idx == old(self).zero_pow_idx - power
                && final(self).coefs@ == scale_seq(old(self).coefs@, coef),
    {
        if power < 0 {
            self.shr_lossles((-power) as usize);
        } else {
            self.shl(power as usize);
        }
        self.scale_coefs(&coef);
    }

    /// A copy of the polynomial, coefficient by coefficient.
    pub fn duplicate(&self) -> (r: Self)
        ensures
            r.coefs@ == self.coefs@,
            r.zero_pow_idx == self.zero_pow_idx,
    {
        let mut v: Vec<F> = Vec::with_capacity(self.coefs.len());
        let mut i: usize = 0;
        while i < self.coefs.len()
            invariant
                i <= self.coefs@.len(),
                v@ == self.coefs@.subrange(0, i as int),
            decreases self.coefs@.len() - i,
        {
            v.push(self.coefs[i].clone_el());
            i = i + 1;
            assert(v@ == self.coefs@.subrange(0, i as int));
        }
        assert(v@ == self.coefs@);
        Polynomial { coefs: v, zero_pow_idx: self.zero_pow_idx }
    }

    /// `simple_mul_mut` on a copy.
    pub fn simple_mul(&self, coef: F, power: isize) -> (r: Self)
        requires
            self.valid(),
            F::fvalid(coef),
            power > isize::MIN,
            power >= 0 ==> self.coefs@.len() + power <= usize::MAX,
            power < 0 ==> self.zero_pow_idx - power <= usize::MAX,
        ensures
            r.valid(),
            power >= 0 ==> r.zero_pow_idx == self.zero_pow_idx && r.coefs@ == scale_seq(
                copies(power as nat, F::fzero()) + self.coefs@,
                coef,
            ),
            power < 0 ==> r.zero_pow_idx == self.zero_pow_idx - power && r.coefs@ == scale_seq(
                self.coefs@,
                coef,
            ),
    {
        let mut c = self.duplicate();
        c.simple_mul_mut(coef, power);
        c
    }

    /// Divides by `coef * x^power`: the exponents move down by `power`
    /// (up, with zeros below, for a negative one) and every coefficient is
    /// divided by `coef`, which must not be zero.
    pub fn simple_div_mut(&mut self, coef: F, power: isize)
        requires
            old(self).valid(),
            F::fvalid(coef),
            coef != F::fzero(),
            power > isize::MIN,
            power < 0 ==> old(self).coefs@.len() - power <= usize::MAX,
            power >= 0 ==> old(self).zero_pow_idx + power <= usize::MAX,
        ensures
            final(self).valid(),
            power < 0 ==> final(self).zero_pow_idx == old(self).zero_pow_idx
                && final(self).coefs@ == shrink_seq(
                copies((-power) as nat, F::fzero()) + old(self).coefs@,
                coef,
            ),
            power >= 0 ==> final(self).zero_pow_idx == old(self).zero_pow_idx + power
                && final(self).coefs@ == shrink_seq(old(self).coefs@, coef),
    {
        if power < 0 {
            self.shl((-power) as usize);
        } else {
            self.shr_lossles(power as usize);
        }
        self.shrink_coefs(&coef);
    }

    /// `simple_div_mut` on a copy.
    pub fn simple_div(&self, coef: F, power: isize) -> (r: Self)
        requires
            self.valid(),
            F::fvalid(coef),
            coef != F::fzero(),
            power > isize::MIN,
            power < 0 ==> self.coefs@.len() - power <= usize::MAX,
            power >= 0 ==> self.zero_pow_idx + power <= usize::MAX,
        ensures
            r.valid(),
            power < 0 ==> r.zero_pow_idx == self.zero_pow_idx && r.coefs@ == shrink_seq(
                copies((-power) as nat, F::fzero()) + self.coefs@,
                coef,
            ),
            power >= 0 ==> r.zero_pow_idx == self.zero_pow_idx + power && r.coefs@ == shrink_seq(
                self.coefs@,
                coef,
            ),
    {
        let mut c = self.duplicate();
        c.simple_div_mut(coef, power);
        c
    }

    pub fn len(&self) -> (r: usize)
        ensures
            r == self.coefs@.len(),
    {
        self.coefs.len()
    }
}

} // verus!
