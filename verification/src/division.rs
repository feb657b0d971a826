//! Division: long division along one axis, and the division of two numbers in
//! the plane that is built on it.
use crate::digit::DualBalancedTernaryDigit;
use crate::error::ArithmeticError;
use crate::model::TernaryView;
use crate::primes::{DualBalancedTernary, DIV_PRECISION};
use crate::value::pow3;
use vstd::prelude::*;

verus! {

/// The next digit of a quotient, guessed from the leading digits of the
/// remainder and of the divisor: `1` where they agree, `9` where they do
/// not.
pub open spec fn quotient_digit(
    remainder: DualBalancedTernaryDigit,
    divisor: DualBalancedTernaryDigit,
) -> DualBalancedTernaryDigit {
    if remainder == divisor {
        DualBalancedTernaryDigit::Dbt1
    } else {
        DualBalancedTernaryDigit::Dbt9
    }
}

impl TernaryView {
    /// The next term of a quotient: the guessed digit, at the place by which
    /// the leading digit of the remainder lies above that of the divisor.
    pub open spec fn quotient_term(self, divisor: Self) -> Self {
        let (a_digit, a_place) = self.first_digit();
        let (b_digit, b_place) = divisor.first_digit();
        Self::zero().add_at(a_place - b_place, quotient_digit(a_digit, b_digit))
    }

    /// Long division, with this number as the remainder: as long as the
    /// remainder is not zero and steps are left, the next term is added to the
    /// quotient and its product with the divisor taken from the remainder.
    pub open spec fn divide_steps(self, divisor: Self, quotient: Self, steps: nat) -> Self
        decreases steps,
    {
        if self.is_zero() || steps == 0 {
            quotient
        } else {
            let term = self.quotient_term(divisor);
            self.sub(term.mul(divisor)).divide_steps(
                divisor,
                quotient.add(term),
                (steps - 1) as nat,
            )
        }
    }

    /// The quotient of two numbers on the axis through `1` and `9`. Zero
    /// divided by anything is the dividend itself. Otherwise the divisor must
    /// not be zero and both must lie on the axis, and the quotient is cut off
    /// after `2 * DIV_PRECISION` steps where the division does not come out
    /// even before.
    pub open spec fn linear_divide(self, other: Self) -> Result<Self, ArithmeticError> {
        if self.is_zero() {
            Ok(self)
        } else if other.is_zero() {
            Err(ArithmeticError::DivisionByZero)
        } else if !self.is_linear_ternary() || !other.is_linear_ternary() {
            Err(ArithmeticError::NotLinear)
        } else {
            Ok(self.divide_steps(other, Self::zero(), (2 * DIV_PRECISION) as nat))
        }
    }

    /// The quotient of two numbers in the plane. Both are multiplied by the
    /// conjugate of the divisor, which brings the divisor onto the axis
    /// through `1`. The dividend is split into its part along `1` and its part
    /// along `3`; the first is divided as it is, the second turned onto the
    /// axis through `1`, divided and turned back; the quotient is the sum of
    /// the two.
    pub open spec fn div(self, other: Self) -> Result<Self, ArithmeticError> {
        if other.is_zero() {
            Err(ArithmeticError::DivisionByZero)
        } else {
            let cj = other.conjugate();
            let divisor = other.mul(cj);
            let (ay, ax) = self.mul(cj).split_yx();
            match ay.linear_divide(divisor) {
                Err(e) => Err(e),
                Ok(qy) => match ax.rotate7().linear_divide(divisor) {
                    Err(e) => Err(e),
                    Ok(qx) => Ok(qy.add(qx.rotate3())),
                },
            }
        }
    }
}

impl TernaryView {
    /// A term of a quotient lies on the axis through `1` and `9`.
    pub proof fn lemma_quotient_term_linear(self, divisor: Self)
        ensures
            self.quotient_term(divisor).is_linear_ternary(),
    {
        let (a_digit, a_place) = self.first_digit();
        let (b_digit, b_place) = divisor.first_digit();
        Self::zero().lemma_add_at_linear(a_place - b_place, quotient_digit(a_digit, b_digit));
    }

    /// Long division of numbers on the axis through `1` and `9` never leaves
    /// it: the quotient lies on it, whatever the number of steps.
    pub proof fn lemma_divide_steps_linear(self, divisor: Self, quotient: Self, steps: nat)
        requires
            self.is_linear_ternary(),
            divisor.is_linear_ternary(),
            quotient.is_linear_ternary(),
        ensures
            self.divide_steps(divisor, quotient, steps).is_linear_ternary(),
        decreases steps,
    {
        if !(self.is_zero() || steps == 0) {
            let term = self.quotient_term(divisor);
            self.lemma_quotient_term_linear(divisor);
            term.lemma_mul_linear(divisor);
            self.lemma_add_linear(term.mul(divisor));
            quotient.lemma_add_linear(term);
            self.sub(term.mul(divisor)).lemma_divide_steps_linear(
                divisor,
                quotient.add(term),
                (steps - 1) as nat,
            );
        }
    }

    /// A quotient along the axis through `1` and `9` lies on it.
    pub proof fn lemma_linear_divide_linear(self, other: Self)
        ensures
            self.linear_divide(other) is Ok ==> self.linear_divide(other)->Ok_0.is_linear_ternary(),
    {
        if self.is_zero() {
        } else if self.linear_divide(other) is Ok {
            self.lemma_divide_steps_linear(other, Self::zero(), (2 * DIV_PRECISION) as nat);
        }
    }
}

impl TernaryView {
    /// What long division leaves of the dividend, with this number as the
    /// remainder: as long as it is not zero and steps are left, the product
    /// of the next term and the divisor is taken from it.
    pub open spec fn remainder_steps(self, divisor: Self, steps: nat) -> Self
        decreases steps,
    {
        if self.is_zero() || steps == 0 {
            self
        } else {
            self.sub(self.quotient_term(divisor).mul(divisor)).remainder_steps(
                divisor,
                (steps - 1) as nat,
            )
        }
    }

    /// What long division leaves of the dividend lies on the axis through `1`
    /// and `9`.
    pub proof fn lemma_remainder_steps_linear(self, divisor: Self, steps: nat)
        requires
            self.is_linear_ternary(),
            divisor.is_linear_ternary(),
        ensures
            self.remainder_steps(divisor, steps).is_linear_ternary(),
        decreases steps,
    {
        if !(self.is_zero() || steps == 0) {
            let term = self.quotient_term(divisor);
            self.lemma_quotient_term_linear(divisor);
            term.lemma_mul_linear(divisor);
            self.lemma_add_linear(term.mul(divisor));
            self.sub(term.mul(divisor)).lemma_remainder_steps_linear(
                divisor,
                (steps - 1) as nat,
            );
        }
    }

    /// A window with a higher end weighs the same, once it holds the integral
    /// digits.
    pub proof fn lemma_weigh_higher(self, lo: int, hi: int, higher: int, vertical: bool)
        requires
            self.integral.len() <= hi <= higher,
        ensures
            self.weigh(lo, higher, vertical) == self.weigh(lo, hi, vertical),
    {
        self.lemma_weigh_above(lo, hi, higher, vertical);
    }

    /// One step of long division keeps the balance: the product of the
    /// quotient and the divisor, together with the remainder, stands for the
    /// same point before and after. The windows hold every number that the
    /// step touches; quotients are weighed from `lo_q` up, the divisor from
    /// `lo_b` up, and remainders from `lo_q + lo_b` up.
    #[verifier::rlimit(40)]
    pub proof fn lemma_divide_step_balance(
        self,
        divisor: Self,
        quotient: Self,
        lo_q: int,
        lo_b: int,
        hi: int,
    )
        requires
            self.is_linear_ternary(),
            divisor.is_linear_ternary(),
            quotient.is_linear_ternary(),
            self.within(lo_q + lo_b, hi),
            divisor.within(lo_b, hi),
            quotient.within(lo_q, hi),
            self.quotient_term(divisor).within(lo_q, hi),
            self.quotient_term(divisor).mul(divisor).within(lo_q + lo_b, hi),
            self.sub(self.quotient_term(divisor).mul(divisor)).within(lo_q + lo_b, hi),
            quotient.add(self.quotient_term(divisor)).within(lo_q, hi),
        ensures
            quotient.add(self.quotient_term(divisor)).weigh(lo_q, hi, true) * divisor.weigh(
                lo_b,
                hi,
                true,
            ) + self.sub(self.quotient_term(divisor).mul(divisor)).weigh(lo_q + lo_b, hi, true)
                == quotient.weigh(lo_q, hi, true) * divisor.weigh(lo_b, hi, true) + self.weigh(
                lo_q + lo_b,
                hi,
                true,
            ),
    {
        let term = self.quotient_term(divisor);
        let product = term.mul(divisor);
        let double = 2 * hi;
        self.lemma_quotient_term_linear(divisor);
        term.lemma_mul_linear(divisor);
        assert(!term.holds(DualBalancedTernaryDigit::Dbt8)) by {
            if term.integral.contains(DualBalancedTernaryDigit::Dbt8) {
                let i = choose|i: int|
                    0 <= i < term.integral.len() && term.integral[i]
                        == DualBalancedTernaryDigit::Dbt8;
                assert(term.integral[i].x() == 0);
            }
            if term.fractional.contains(DualBalancedTernaryDigit::Dbt8) {
                let j = choose|j: int|
                    0 <= j < term.fractional.len() && term.fractional[j]
                        == DualBalancedTernaryDigit::Dbt8;
                assert(term.fractional[j].x() == 0);
            }
        }
        term.lemma_mul_weigh(divisor, lo_q, hi, lo_b, hi, double, true);
        product.lemma_weigh_higher(lo_q + lo_b, hi, double, true);
        term.lemma_sign_of_first_digit(lo_q, hi);
        divisor.lemma_sign_of_first_digit(lo_b, hi);
        self.lemma_sub_weigh(product, lo_q + lo_b, hi, true);
        quotient.lemma_add_weigh(term, lo_q, hi, true);
        let t = term.weigh(lo_q, hi, true);
        let b = divisor.weigh(lo_b, hi, true);
        let q = quotient.weigh(lo_q, hi, true);
        let a = self.weigh(lo_q + lo_b, hi, true);
        assert(product.weigh(lo_q + lo_b, hi, true) == t * b) by (nonlinear_arith)
            requires
                product.weigh(lo_q + lo_b, hi, true) == t * b - 0 * 0,
        ;
        assert((q + t) * b + (a - t * b) == q * b + a) by (nonlinear_arith);
    }

    /// Long division keeps the balance: the product of the quotient and the
    /// divisor, together with what is left of the dividend, stands for the
    /// point that the dividend and the product of the divisor and the quotient
    /// so far stood for at the start.
    #[verifier::rlimit(40)]
    pub proof fn lemma_divide_steps_balance(
        self,
        divisor: Self,
        quotient: Self,
        steps: nat,
        lo_q: int,
        lo_b: int,
        hi: int,
    )
        requires
            self.is_linear_ternary(),
            divisor.is_linear_ternary(),
            quotient.is_linear_ternary(),
            self.within(lo_q + lo_b, hi),
            divisor.within(lo_b, hi),
            quotient.within(lo_q, hi),
            self.divide_steps(divisor, quotient, steps).within(lo_q, hi),
            self.remainder_steps(divisor, steps).within(lo_q + lo_b, hi),
        ensures
            self.divide_steps(divisor, quotient, steps).weigh(lo_q, hi, true) * divisor.weigh(
                lo_b,
                hi,
                true,
            ) + self.remainder_steps(divisor, steps).weigh(lo_q + lo_b, hi, true)
                == quotient.weigh(lo_q, hi, true) * divisor.weigh(lo_b, hi, true) + self.weigh(
                lo_q + lo_b,
                hi,
                true,
            ),
        decreases steps,
    {
        if !(self.is_zero() || steps == 0) {
            let term = self.quotient_term(divisor);
            let product = term.mul(divisor);
            let left = self.sub(product);
            let sum = quotient.add(term);
            let last = self.divide_steps(divisor, quotient, steps);
            let rest = self.remainder_steps(divisor, steps);
            self.lemma_quotient_term_linear(divisor);
            term.lemma_mul_linear(divisor);
            self.lemma_add_linear(product);
            quotient.lemma_add_linear(term);
            // a window that holds every number of this step
            let down = term.fractional.len() + sum.fractional.len() + left.fractional.len()
                + product.fractional.len();
            let low = lo_q - down;
            let high = hi + term.integral.len() + sum.integral.len() + left.integral.len()
                + product.integral.len();
            self.lemma_divide_step_balance(divisor, quotient, low, lo_b, high);
            left.lemma_divide_steps_balance(divisor, sum, (steps - 1) as nat, low, lo_b, high);
            // back to the window that was asked for
            last.lemma_weigh_rescale(lo_q, hi, down, true);
            last.lemma_weigh_higher(low, hi, high, true);
            rest.lemma_weigh_rescale(lo_q + lo_b, hi, down, true);
            rest.lemma_weigh_higher(low + lo_b, hi, high, true);
            quotient.lemma_weigh_rescale(lo_q, hi, down, true);
            quotient.lemma_weigh_higher(low, hi, high, true);
            self.lemma_weigh_rescale(lo_q + lo_b, hi, down, true);
            self.lemma_weigh_higher(low + lo_b, hi, high, true);
            divisor.lemma_weigh_higher(lo_b, hi, high, true);
            crate::product::lemma_pow3_adds(down, 0);
            let scale = pow3(down);
            let q_last = last.weigh(lo_q, hi, true);
            let r_last = rest.weigh(lo_q + lo_b, hi, true);
            let q = quotient.weigh(lo_q, hi, true);
            let a = self.weigh(lo_q + lo_b, hi, true);
            let b = divisor.weigh(lo_b, hi, true);
            assert(q_last * b + r_last == q * b + a) by (nonlinear_arith)
                requires
                    scale > 0,
                    (scale * q_last) * b + scale * r_last == (scale * q) * b + scale * a,
            ;
        }
    }

    /// What long division along the axis leaves of the dividend.
    pub open spec fn linear_remainder(self, other: Self) -> Self {
        if self.is_zero() {
            Self::zero()
        } else {
            self.remainder_steps(other, (2 * DIV_PRECISION) as nat)
        }
    }

    /// The division along the axis through `1` and `9` is a division: the
    /// product of the quotient and the divisor, together with what is left of
    /// the dividend, stands for the point that the dividend stands for. Where
    /// nothing is left, the quotient is exact.
    pub proof fn lemma_linear_divide_balance(self, other: Self, lo_q: int, lo_b: int, hi: int)
        requires
            self.linear_divide(other) is Ok,
            self.within(lo_q + lo_b, hi),
            other.within(lo_b, hi),
            self.linear_divide(other)->Ok_0.within(lo_q, hi),
            self.linear_remainder(other).within(lo_q + lo_b, hi),
        ensures
            self.linear_divide(other)->Ok_0.weigh(lo_q, hi, true) * other.weigh(lo_b, hi, true)
                + self.linear_remainder(other).weigh(lo_q + lo_b, hi, true) == self.weigh(
                lo_q + lo_b,
                hi,
                true,
            ),
    {
        let b = other.weigh(lo_b, hi, true);
        if self.is_zero() {
            self.lemma_weigh_centers(lo_q, hi, true);
            self.lemma_weigh_centers(lo_q + lo_b, hi, true);
            Self::lemma_zero_weigh(lo_q + lo_b, hi, true);
            assert(0 * b == 0);
        } else {
            self.lemma_divide_steps_balance(
                other,
                Self::zero(),
                (2 * DIV_PRECISION) as nat,
                lo_q,
                lo_b,
                hi,
            );
            Self::lemma_zero_weigh(lo_q, hi, true);
            assert(0 * b == 0);
        }
    }
}

impl TernaryView {
    /// Division along the axis undoes multiplication: where the product of a
    /// number and a divisor, both on the axis through `1` and `9`, is divided
    /// by the divisor and nothing is left, the quotient is equal to the
    /// number.
    #[verifier::rlimit(40)]
    pub proof fn lemma_linear_divide_inverts_mul(self, divisor: Self)
        requires
            self.is_linear_ternary(),
            divisor.is_linear_ternary(),
            !divisor.is_zero(),
            self.mul(divisor).linear_remainder(divisor).is_zero(),
        ensures
            self.mul(divisor).linear_divide(divisor) is Ok,
            self.mul(divisor).linear_divide(divisor)->Ok_0.same_value(self),
    {
        let product = self.mul(divisor);
        self.lemma_mul_linear(divisor);
        let quotient = product.linear_divide(divisor)->Ok_0;
        let left = product.linear_remainder(divisor);
        product.lemma_linear_divide_linear(divisor);
        // a window that holds every number in sight
        let lo_q = -(quotient.fractional.len() + self.fractional.len() + product.fractional.len()
            + left.fractional.len());
        let lo_b = -(divisor.fractional.len() as int);
        let hi = (quotient.integral.len() + self.integral.len() + product.integral.len()
            + left.integral.len() + divisor.integral.len()) as int;
        product.lemma_linear_divide_balance(divisor, lo_q, lo_b, hi);
        left.lemma_weigh_centers(lo_q + lo_b, hi, true);
        assert(!self.holds(DualBalancedTernaryDigit::Dbt8)) by {
            if self.integral.contains(DualBalancedTernaryDigit::Dbt8) {
                let i = choose|i: int|
                    0 <= i < self.integral.len() && self.integral[i]
                        == DualBalancedTernaryDigit::Dbt8;
                assert(self.integral[i].x() == 0);
            }
            if self.fractional.contains(DualBalancedTernaryDigit::Dbt8) {
                let j = choose|j: int|
                    0 <= j < self.fractional.len() && self.fractional[j]
                        == DualBalancedTernaryDigit::Dbt8;
                assert(self.fractional[j].x() == 0);
            }
        }
        self.lemma_mul_weigh(divisor, lo_q, hi, lo_b, hi, 2 * hi, true);
        product.lemma_weigh_higher(lo_q + lo_b, hi, 2 * hi, true);
        self.lemma_sign_of_first_digit(lo_q, hi);
        divisor.lemma_sign_of_first_digit(lo_b, hi);
        quotient.lemma_sign_of_first_digit(lo_q, hi);
        let q = quotient.weigh(lo_q, hi, true);
        let x = self.weigh(lo_q, hi, true);
        let b = divisor.weigh(lo_b, hi, true);
        assert(product.weigh(lo_q + lo_b, hi, true) == x * b) by (nonlinear_arith)
            requires
                product.weigh(lo_q + lo_b, hi, true) == x * b - 0 * 0,
        ;
        assert(q == x) by (nonlinear_arith)
            requires
                q * b == x * b,
                b != 0,
        ;
        quotient.lemma_same_weight_same_value(self, lo_q, hi);
    }
}

impl DualBalancedTernary {
    /// Divides two numbers that hold no digit but `1`, `5` and `9`.
    ///
    /// A zero dividend gives a copy of itself, whatever the divisor. Otherwise
    /// a zero divisor is refused, then an operand with another digit. The
    /// quotient is built from the leading digit down; it is exact where the
    /// remainder reaches zero within `2 * DIV_PRECISION` steps, and cut off
    /// there where it does not.
    pub fn linear_divide(&self, other: DualBalancedTernary) -> (r: Result<
        DualBalancedTernary,
        ArithmeticError,
    >)
        ensures
            match r {
                Ok(q) => self@.linear_divide(other@) == Ok::<TernaryView, ArithmeticError>(q@)
                    && q@.is_linear_ternary(),
                Err(e) => self@.linear_divide(other@) == Err::<TernaryView, ArithmeticError>(e),
            },
    {
        proof {
            self@.lemma_linear_divide_linear(other@);
        }
        if self.is_zero() {
            return Ok(self.clone());
        }
        if other.is_zero() {
            return Err(ArithmeticError::DivisionByZero);
        }
        if !self.is_linear_ternary() {
            return Err(ArithmeticError::NotLinear);
        }
        if !other.is_linear_ternary() {
            return Err(ArithmeticError::NotLinear);
        }
        let mut result = DualBalancedTernary::zero();
        let mut reminder = self.clone();
        let mut precision: usize = DIV_PRECISION * 2;
        while !reminder.is_zero() && precision > 0
            invariant
                reminder@.divide_steps(other@, result@, precision as nat) == self@.divide_steps(
                    other@,
                    TernaryView::zero(),
                    (2 * DIV_PRECISION) as nat,
                ),
                reminder@.is_linear_ternary(),
                other@.is_linear_ternary(),
                !other@.is_zero(),
            decreases precision,
        {
            let (a_digit, a_idx) = reminder.leading();
            let (b_digit, b_idx) = other.leading();
            proof {
                // both leading digits are `1` or `9`, so the guess below is
                // `1` for equal signs and `9` for opposite ones
                reminder@.lemma_first_digit_linear();
                other@.lemma_first_digit_linear();
                let term = reminder@.quotient_term(other@);
                reminder@.lemma_quotient_term_linear(other@);
                term.lemma_mul_linear(other@);
                reminder@.lemma_add_linear(term.mul(other@));
            }
            let try_digit = if a_digit == b_digit {
                DualBalancedTernaryDigit::Dbt1
            } else {
                DualBalancedTernaryDigit::Dbt9
            };
            let mut v = DualBalancedTernary::zero();
            v.accumulate(a_idx - b_idx, try_digit);
            let step = v.clone().mul(other.clone());
            reminder = reminder.sub(step);
            result = result.add(v);
            precision -= 1;
        }
        Ok(result)
    }

    /// Divides two numbers. A zero divisor is refused. Where the division
    /// does not come out even, the quotient is cut off, without a sign of it.
    pub fn div(self, other: DualBalancedTernary) -> (r: Result<
        DualBalancedTernary,
        ArithmeticError,
    >)
        ensures
            match r {
                Ok(q) => self@.div(other@) == Ok::<TernaryView, ArithmeticError>(q@),
                Err(e) => self@.div(other@) == Err::<TernaryView, ArithmeticError>(e),
            },
            other@.is_zero() ==> r == Err::<DualBalancedTernary, ArithmeticError>(
                ArithmeticError::DivisionByZero,
            ),
    {
        if other.is_zero() {
            return Err(ArithmeticError::DivisionByZero);
        }
        let cj = other.conjugate();
        let a2 = self.mul(cj.clone());
        let b2 = other.mul(cj);
        let (ay, ax) = a2.split_yx();
        let qy = match ay.linear_divide(b2.clone()) {
            Ok(q) => q,
            Err(e) => {
                return Err(e);
            },
        };
        let qx = match ax.rotate7().linear_divide(b2) {
            Ok(q) => q,
            Err(e) => {
                return Err(e);
            },
        };
        Ok(qy.add(qx.rotate3()))
    }
}

} // verus!
