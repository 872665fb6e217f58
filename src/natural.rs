//! Natural numbers held in a `u64`.
use crate::util::SetSize;
use vstd::prelude::*;

verus! {

/// A natural number.
#[derive(Clone, Copy, Debug, PartialEq, Eq, Structural)]
pub struct Natural(pub u64);

impl core::ops::Add for Natural {
    type Output = Natural;

    fn add(self, rhs: Self) -> (r: Natural) {
        Natural(self.0 + rhs.0)
    }
}

impl vstd::std_specs::ops::AddSpecImpl for Natural {
    open spec fn obeys_add_spec() -> bool {
        true
    }

    open spec fn add_req(self, rhs: Self) -> bool {
        self.0 + rhs.0 <= u64::MAX
    }

    open spec fn add_spec(self, rhs: Self) -> Natural {
        Natural((self.0 + rhs.0) as u64)
    }
}

impl core::ops::Mul for Natural {
    type Output = Natural;

    fn mul(self, rhs: Self) -> (r: Natural) {
        Natural(self.0 * rhs.0)
    }
}

impl vstd::std_specs::ops::MulSpecImpl for Natural {
    open spec fn obeys_mul_spec() -> bool {
        true
    }

    open spec fn mul_req(self, rhs: Self) -> bool {
        self.0 * rhs.0 <= u64::MAX
    }

    open spec fn mul_spec(self, rhs: Self) -> Natural {
        Natural((self.0 * rhs.0) as u64)
    }
}

impl core::ops::Sub for Natural {
    type Output = Option<Natural>;

    /// The difference, or `None` when it would be negative.
    fn sub(self, rhs: Self) -> (r: Option<Natural>) {
        if self.0 >= rhs.0 {
            Some(Natural(self.0 - rhs.0))
        } else {
            None
        }
    }
}

impl vstd::std_specs::ops::SubSpecImpl for Natural {
    open spec fn obeys_sub_spec() -> bool {
        true
    }

    open spec fn sub_req(self, rhs: Self) -> bool {
        true
    }

    open spec fn sub_spec(self, rhs: Self) -> Option<Natural> {
        if self.0 >= rhs.0 {
            Some(Natural((self.0 - rhs.0) as u64))
        } else {
            None
        }
    }
}

impl Natural {
    pub fn add_assign(&mut self, rhs: Self)
        requires
            old(self).0 + rhs.0 <= u64::MAX,
        ensures
            final(self).0 == old(self).0 + rhs.0,
    {
        self.0 = self.0 + rhs.0;
    }

    pub fn mul_assign(&mut self, rhs: Self)
        requires
            old(self).0 * rhs.0 <= u64::MAX,
        ensures
            final(self).0 == old(self).0 * rhs.0,
    {
        self.0 = self.0 * rhs.0;
    }

    /// The successor, or `None` at the largest value.
    pub fn next(&mut self) -> (r: Option<Natural>)
        ensures
            *final(self) == *old(self),
            old(self).0 == u64::MAX ==> r is None,
            old(self).0 < u64::MAX ==> r == Some(Natural((old(self).0 + 1) as u64)),
    {
        if self.0 == u64::MAX {
            None
        } else {
            Some(Natural(self.0 + 1))
        }
    }

    /// The set of naturals is countably infinite.
    pub fn size(&self) -> (r: SetSize)
        ensures
            r == SetSize::CountablyInfinite,
    {
        SetSize::CountablyInfinite
    }
}

} // verus!
