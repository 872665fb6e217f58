//! The canonical text of a polynomial: terms from the highest exponent
//! down, as in `6x^3 + 5x^2 + 4x + 3 + 2x^(-1) + x^(-2)`.
use crate::field::Field;
use crate::poly::{trims, Polynomial, MAX_POW};
use crate::util::ParsePolyErr;
use vstd::prelude::*;
use vstd::string::StringExecFns;

verus! {

/// The decimal digit `d`.
pub open spec fn digit_char(d: int) -> char {
    if d == 0 {
        '0'
    } else if d == 1 {
        '1'
    } else if d == 2 {
        '2'
    } else if d == 3 {
        '3'
    } else if d == 4 {
        '4'
    } else if d == 5 {
        '5'
    } else if d == 6 {
        '6'
    } else if d == 7 {
        '7'
    } else if d == 8 {
        '8'
    } else {
        '9'
    }
}

/// `n` in decimal, without leading zeros.
pub open spec fn nat_text(n: nat) -> Seq<char>
    decreases n,
{
    if n < 10 {
        seq![digit_char(n as int)]
    } else {
        nat_text(n / 10) + seq![digit_char((n % 10) as int)]
    }
}

/// `n` in decimal, with a leading `-` when negative.
pub open spec fn int_text(n: int) -> Seq<char> {
    if n < 0 {
        seq!['-'] + nat_text((-n) as nat)
    } else {
        nat_text(n as nat)
    }
}

/// `" + "` before every term but the first.
pub open spec fn sep_text(first: bool) -> Seq<char> {
    if first {
        Seq::empty()
    } else {
        seq![' ', '+', ' ']
    }
}

/// The coefficient, left out when it is one and `x` is shown.
pub open spec fn coef_text<F: Field>(c: F, pow: int) -> Seq<char> {
    if c != F::fone() || pow == 0 {
        F::ftext(c)
    } else {
        Seq::empty()
    }
}

/// `x`, left out for the exponent zero.
pub open spec fn x_text(pow: int) -> Seq<char> {
    if pow != 0 {
        seq!['x']
    } else {
        Seq::empty()
    }
}

/// The exponent, left out for 0 and 1; in parentheses when negative.
pub open spec fn pow_text(pow: int) -> Seq<char> {
    if pow != 0 && pow != 1 {
        if pow < 0 {
            seq!['^', '('] + int_text(pow) + seq![')']
        } else {
            seq!['^'] + int_text(pow)
        }
    } else {
        Seq::empty()
    }
}

/// The text of the term `c * x^pow`; empty when `c` is zero.
pub open spec fn term_text<F: Field>(c: F, pow: int, first: bool) -> Seq<char> {
    if c == F::fzero() {
        Seq::empty()
    } else {
        sep_text(first) + coef_text(c, pow) + x_text(pow) + pow_text(pow)
    }
}

/// The text of the `n` highest stored terms of `(s, z)`.
pub open spec fn terms_text<F: Field>(s: Seq<F>, z: int, n: nat) -> Seq<char>
    decreases n,
{
    if n == 0 || n > s.len() {
        Seq::empty()
    } else {
        terms_text(s, z, (n - 1) as nat) + term_text(s[s.len() - n], s.len() - n - z, n == 1)
    }
}

/// The text of the normalized `(s, z)`: its terms, or the field's zero
/// when there are none.
pub open spec fn poly_text<F: Field>(s: Seq<F>, z: int) -> Seq<char> {
    if s.len() == 0 {
        F::ftext(F::fzero())
    } else {
        terms_text(s, z, s.len())
    }
}

/// The literal for the digit `d`.
fn digit_str(d: usize) -> (r: &'static str)
    requires
        d < 10,
    ensures
        r@ == seq![digit_char(d as int)],
{
    proof {
        reveal_strlit("0");
        reveal_strlit("1");
        reveal_strlit("2");
        reveal_strlit("3");
        reveal_strlit("4");
        reveal_strlit("5");
        reveal_strlit("6");
        reveal_strlit("7");
        reveal_strlit("8");
        reveal_strlit("9");
    }
    if d == 0 {
        "0"
    } else if d == 1 {
        "1"
    } else if d == 2 {
        "2"
    } else if d == 3 {
        "3"
    } else if d == 4 {
        "4"
    } else if d == 5 {
        "5"
    } else if d == 6 {
        "6"
    } else if d == 7 {
        "7"
    } else if d == 8 {
        "8"
    } else {
        "9"
    }
}

/// Appends `n` in decimal.
fn push_nat(out: &mut String, n: usize)
    ensures
        final(out)@ == old(out)@ + nat_text(n as nat),
    decreases n,
{
    if n >= 10 {
        push_nat(out, n / 10);
    }
    out.append(digit_str(n % 10));
    proof {
        if n >= 10 {
            assert(old(out)@ + nat_text((n / 10) as nat) + seq![digit_char((n % 10) as int)]
                == old(out)@ + nat_text(n as nat));
        } else {
            assert(n % 10 == n);
        }
    }
}

/// Appends `n` in decimal, with a leading `-` when negative.
fn push_int(out: &mut String, n: isize)
    requires
        n > isize::MIN,
    ensures
        final(out)@ == old(out)@ + int_text(n as int),
{
    if n < 0 {
        proof {
            reveal_strlit("-");
        }
        out.append("-");
        push_nat(out, (-n) as usize);
        assert(old(out)@ + seq!['-'] + nat_text((-n) as nat) == old(out)@ + int_text(n as int));
    } else {
        push_nat(out, n as usize);
    }
}

/// Appends the exponent part of a term.
fn push_pow(out: &mut String, pow: isize)
    requires
        pow > isize::MIN,
    ensures
        final(out)@ == old(out)@ + pow_text(pow as int),
{
    proof {
        reveal_strlit("^(");
        reveal_strlit(")");
        reveal_strlit("^");
    }
    if pow != 0 && pow != 1 {
        if pow < 0 {
            out.append("^(");
            push_int(out, pow);
            out.append(")");
            assert(final(out)@ =~= old(out)@ + pow_text(pow as int));
        } else {
            out.append("^");
            push_int(out, pow);
            assert(final(out)@ =~= old(out)@ + pow_text(pow as int));
        }
    } else {
        assert(old(out)@ + pow_text(pow as int) =~= old(out)@);
    }
}

/// Appends the text of the term `coef * x^pow`.
fn push_term<F: Field>(out: &mut String, coef: &F, pow: isize, first: bool, zero: &F, one: &F)
    requires
        F::fvalid(*coef),
        *zero == F::fzero(),
        *one == F::fone(),
        F::fvalid(*zero),
        F::fvalid(*one),
        pow > isize::MIN,
    ensures
        final(out)@ == old(out)@ + term_text(*coef, pow as int, first),
{
    if coef.eq_el(zero) {
        assert(old(out)@ + Seq::<char>::empty() =~= old(out)@);
        return;
    }
    proof {
        reveal_strlit(" + ");
        reveal_strlit("x");
    }
    let ghost s0 = out@;
    if !first {
        out.append(" + ");
    }
    assert(out@ =~= s0 + sep_text(first));
    let ghost s1 = out@;
    let show_x = pow != 0;
    if !coef.eq_el(one) || !show_x {
        let ct = coef.to_text();
        out.append(ct.as_str());
    }
    assert(out@ =~= s1 + coef_text(*coef, pow as int));
    let ghost s2 = out@;
    if show_x {
        out.append("x");
    }
    assert(out@ =~= s2 + x_text(pow as int));
    push_pow(out, pow);
    assert(out@ =~= s0 + term_text(*coef, pow as int, first));
}

impl<F: Field> Polynomial<F> {
    /// The canonical text of the polynomial: its normalized terms from the
    /// highest exponent down, or the field's zero for the zero polynomial.
    pub fn to_text(&self) -> (r: String)
        requires
            self.valid(),
            self.within(MAX_POW as int),
        ensures
            exists|t: Seq<F>, tz: int|
                trims(t, tz, self.coefs@, self.zero_pow_idx as int) && r@ == poly_text(t, tz),
    {
        let mut c = self.duplicate();
        c.normalize();
        let ghost t = c.coefs@;
        let ghost tz = c.zero_pow_idx as int;
        proof {
            Self::lemma_trims(t, tz, self.coefs@, self.zero_pow_idx as int);
            Self::lemma_trims_within(t, tz, self.coefs@, self.zero_pow_idx as int, MAX_POW as int);
        }
        let len = c.coefs.len();
        if len == 0 {
            let z = F::zero_el();
            let s = z.to_text();
            assert(s@ == poly_text(t, tz));
            return s;
        }
        let zero = F::zero_el();
        let one = F::one_el();
        let init_pow: isize = if c.zero_pow_idx > 0 {
            -(c.zero_pow_idx as isize)
        } else {
            0
        };
        let mut out = String::new();
        let mut idx: usize = 0;
        while idx < len
            invariant
                c.coefs@ == t,
                c.zero_pow_idx == tz,
                c.valid(),
                len == t.len(),
                0 <= tz <= MAX_POW,
                len <= tz + MAX_POW + 1,
                init_pow == -tz,
                zero == F::fzero(),
                one == F::fone(),
                F::fvalid(zero),
                F::fvalid(one),
                idx <= len,
                out@ == terms_text(t, tz, idx as nat),
            decreases len - idx,
        {
            let k = len - 1 - idx;
            let cur_pow: isize = init_pow + (k as isize);
            push_term(&mut out, &c.coefs[k], cur_pow, idx == 0, &zero, &one);
            idx = idx + 1;
            assert(out@ == terms_text(t, tz, idx as nat));
        }
        assert(out@ == poly_text(t, tz));
        out
    }
}

impl<F: Field> Polynomial<F> {
    /// Reading a polynomial back from text is not supported: every input
    /// gives `ParsePolyErr::ParseErr`.
    pub fn from_str_radix(text: &str, radix: u32) -> (r: Result<Self, ParsePolyErr>)
        ensures
            r == Err::<Self, ParsePolyErr>(ParsePolyErr::ParseErr),
    {
        Err(ParsePolyErr::ParseErr)
    }
}

} // verus!
