//! The operators `+` and `*` on digits, and `+`, `-`, `*` and `/` on numbers.
//! Each stands for the method of the same name; the additive inverse is the
//! method `negate`.
use crate::digit::{DigitsPair, DualBalancedTernaryDigit};
use crate::error::ArithmeticError;
use crate::model::TernaryView;
use crate::primes::DualBalancedTernary;
use vstd::prelude::*;

verus! {

impl core::ops::Add for DualBalancedTernaryDigit {
    type Output = DigitsPair;

    /// Carry and digit of the sum of two digits.
    fn add(self, rhs: Self) -> (r: DigitsPair) {
        DualBalancedTernaryDigit::add(self, rhs)
    }
}

impl vstd::std_specs::ops::AddSpecImpl for DualBalancedTernaryDigit {
    open spec fn obeys_add_spec() -> bool {
        true
    }

    open spec fn add_req(self, rhs: Self) -> bool {
        true
    }

    open spec fn add_spec(self, rhs: Self) -> DigitsPair {
        self.spec_add(rhs)
    }
}

impl core::ops::Mul for DualBalancedTernaryDigit {
    type Output = DigitsPair;

    /// Carry and digit of the product of two digits.
    fn mul(self, rhs: Self) -> (r: DigitsPair) {
        DualBalancedTernaryDigit::mul(self, rhs)
    }
}

impl vstd::std_specs::ops::MulSpecImpl for DualBalancedTernaryDigit {
    open spec fn obeys_mul_spec() -> bool {
        true
    }

    open spec fn mul_req(self, rhs: Self) -> bool {
        true
    }

    open spec fn mul_spec(self, rhs: Self) -> DigitsPair {
        self.spec_mul(rhs)
    }
}

impl core::ops::Add for DualBalancedTernary {
    type Output = DualBalancedTernary;

    /// The sum, in canonical form.
    fn add(self, rhs: Self) -> (r: DualBalancedTernary)
        ensures
            r@ == self@.add(rhs@),
    {
        DualBalancedTernary::add(self, rhs)
    }
}

impl vstd::std_specs::ops::AddSpecImpl for DualBalancedTernary {
    /// The result is described by its view, in the contract of `add`.
    open spec fn obeys_add_spec() -> bool {
        false
    }

    open spec fn add_req(self, rhs: Self) -> bool {
        true
    }

    open spec fn add_spec(self, rhs: Self) -> DualBalancedTernary {
        arbitrary()
    }
}

impl core::ops::Sub for DualBalancedTernary {
    type Output = DualBalancedTernary;

    /// The difference, in canonical form.
    fn sub(self, rhs: Self) -> (r: DualBalancedTernary)
        ensures
            r@ == self@.sub(rhs@),
    {
        DualBalancedTernary::sub(self, rhs)
    }
}

impl vstd::std_specs::ops::SubSpecImpl for DualBalancedTernary {
    /// The result is described by its view, in the contract of `sub`.
    open spec fn obeys_sub_spec() -> bool {
        false
    }

    open spec fn sub_req(self, rhs: Self) -> bool {
        true
    }

    open spec fn sub_spec(self, rhs: Self) -> DualBalancedTernary {
        arbitrary()
    }
}

impl core::ops::Mul for DualBalancedTernary {
    type Output = DualBalancedTernary;

    /// The product.
    fn mul(self, rhs: Self) -> (r: DualBalancedTernary)
        ensures
            r@ == self@.mul(rhs@),
    {
        DualBalancedTernary::mul(self, rhs)
    }
}

impl vstd::std_specs::ops::MulSpecImpl for DualBalancedTernary {
    /// The result is described by its view, in the contract of `mul`.
    open spec fn obeys_mul_spec() -> bool {
        false
    }

    open spec fn mul_req(self, rhs: Self) -> bool {
        true
    }

    open spec fn mul_spec(self, rhs: Self) -> DualBalancedTernary {
        arbitrary()
    }
}

impl core::ops::Div for DualBalancedTernary {
    type Output = Result<DualBalancedTernary, ArithmeticError>;

    /// The quotient, or the reason why there is none.
    fn div(self, rhs: Self) -> (r: Result<DualBalancedTernary, ArithmeticError>)
        ensures
            match r {
                Ok(q) => self@.div(rhs@) == Ok::<TernaryView, ArithmeticError>(q@),
                Err(e) => self@.div(rhs@) == Err::<TernaryView, ArithmeticError>(e),
            },
    {
        DualBalancedTernary::div(self, rhs)
    }
}

impl vstd::std_specs::ops::DivSpecImpl for DualBalancedTernary {
    /// The result is described by its view, in the contract of `div`.
    open spec fn obeys_div_spec() -> bool {
        false
    }

    open spec fn div_req(self, rhs: Self) -> bool {
        true
    }

    open spec fn div_spec(self, rhs: Self) -> Result<DualBalancedTernary, ArithmeticError> {
        arbitrary()
    }
}

} // verus!
