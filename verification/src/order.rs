//! The order of the numbers on the axis through `1` and `9`: a number is
//! greater than another where it stands for a higher point, and the leading
//! digit of the difference tells.
use crate::digit::DualBalancedTernaryDigit;
use crate::model::TernaryView;
use crate::value::pow3;
use vstd::prelude::*;

verus! {

impl TernaryView {
    /// A window weighs less than half the weight of the place above it, in
    /// either direction: the digits below a place never outweigh a digit
    /// there.
    pub proof fn lemma_weigh_bound(self, lo: int, hi: int, vertical: bool)
        requires
            lo <= hi,
        ensures
            -pow3((hi - lo) as nat) < 2 * self.weigh(lo, hi, vertical) < pow3((hi - lo) as nat),
        decreases hi - lo,
    {
        if lo < hi {
            self.digit_at(lo).lemma_at_coordinates();
            self.lemma_weigh_bound(lo + 1, hi, vertical);
        }
    }

    /// A window weighs what its lower part weighs and what its upper part
    /// weighs, the latter in its own units.
    pub proof fn lemma_weigh_split(self, lo: int, mid: int, hi: int, vertical: bool)
        requires
            lo <= mid <= hi,
        ensures
            self.weigh(lo, hi, vertical) == self.weigh(lo, mid, vertical) + pow3((mid - lo) as nat)
                * self.weigh(mid, hi, vertical),
        decreases mid - lo,
    {
        let upper = self.weigh(mid, hi, vertical);
        if lo == mid {
            assert(pow3(0) * upper == upper) by (nonlinear_arith)
                requires
                    pow3(0) == 1,
            ;
        } else {
            self.lemma_weigh_split(lo + 1, mid, hi, vertical);
            let lower = pow3((mid - lo - 1) as nat);
            assert(pow3((mid - lo) as nat) == 3 * lower);
            assert(3 * (lower * upper) == (3 * lower) * upper) by (nonlinear_arith);
        }
    }

    /// The sign of the leading digit is the sign of the number: a number on
    /// the axis through `1` and `9` stands for a point above the centre where
    /// its leading digit is `1`, for one below where it is `9`, and for the
    /// centre where it is zero.
    pub proof fn lemma_sign_of_first_digit(self, lo: int, hi: int)
        requires
            self.is_linear_ternary(),
            self.within(lo, hi),
        ensures
            self.weigh(lo, hi, true) > 0 <==> self.first_digit().0 == DualBalancedTernaryDigit::Dbt1,
            self.weigh(lo, hi, true) < 0 <==> self.first_digit().0 == DualBalancedTernaryDigit::Dbt9,
            self.weigh(lo, hi, true) == 0 <==> self.is_zero(),
            self.weigh(lo, hi, false) == 0,
    {
        assert forall|place: int| lo <= place < hi implies self.digit_at(place).x() == 0 by {}
        self.lemma_weigh_horizontal_zero(lo, hi);
        if self.is_zero() {
            self.lemma_weigh_centers(lo, hi, true);
            assert(self.strip_empty_tails() == Self::zero()) by {
                crate::model::lemma_strip_tail_empty(self.integral);
                crate::model::lemma_strip_tail_empty(self.fractional);
                assert(self.strip_empty_tails().integral =~= Seq::empty());
                assert(self.strip_empty_tails().fractional =~= Seq::empty());
            }
        } else {
            self.lemma_first_digit();
            self.lemma_first_digit_linear();
            let (digit, place) = self.first_digit();
            self.lemma_weigh_split(lo, place, hi, true);
            self.lemma_weigh_bound(lo, place, true);
            // above the leading digit nothing weighs
            self.lemma_weigh_above(place, place + 1, hi, true);
            assert(self.weigh(place + 1, place + 1, true) == 0);
            assert(self.weigh(place, place + 1, true) == digit.y());
            let weight = pow3((place - lo) as nat);
            crate::product::lemma_pow3_adds((place - lo) as nat, 0);
            if digit == DualBalancedTernaryDigit::Dbt1 {
                assert(weight * 1 == weight);
            } else {
                assert(weight * (-1) == -weight);
            }
        }
    }

    /// A number on the axis through `1` and `9` weighs nothing
    /// horizontally.
    pub proof fn lemma_weigh_horizontal_zero(self, lo: int, hi: int)
        requires
            forall|place: int| lo <= place < hi ==> self.digit_at(place).x() == 0,
        ensures
            self.weigh(lo, hi, false) == 0,
        decreases hi - lo,
    {
        if lo < hi {
            self.lemma_weigh_horizontal_zero(lo + 1, hi);
        }
    }

    /// One number on the axis through `1` and `9` is greater than another
    /// where it stands for a higher point, and less where it stands for a
    /// lower one: the leading digit of the difference is `1` in the first
    /// case, `9` in the second, and the difference is zero where the two are
    /// equal.
    pub proof fn lemma_linear_order(self, other: Self, lo: int, hi: int)
        requires
            self.is_linear_ternary(),
            other.is_linear_ternary(),
            self.within(lo, hi),
            other.within(lo, hi),
            self.sub(other).within(lo, hi),
        ensures
            self.sub(other).first_digit().0 == DualBalancedTernaryDigit::Dbt1 <==> self.weigh(
                lo,
                hi,
                true,
            ) > other.weigh(lo, hi, true),
            self.sub(other).first_digit().0 == DualBalancedTernaryDigit::Dbt9 <==> self.weigh(
                lo,
                hi,
                true,
            ) < other.weigh(lo, hi, true),
            self.sub(other).is_zero() <==> self.same_value(other),
    {
        let delta = self.sub(other);
        self.lemma_add_linear(other);
        self.lemma_sub_weigh(other, lo, hi, true);
        self.lemma_sub_weigh(other, lo, hi, false);
        delta.lemma_sign_of_first_digit(lo, hi);
        self.lemma_sign_of_first_digit(lo, hi);
        other.lemma_sign_of_first_digit(lo, hi);
        if self.weigh(lo, hi, true) == other.weigh(lo, hi, true) {
            self.lemma_same_weight_same_value(other, lo, hi);
        }
        if self.same_value(other) {
            self.lemma_strip_weigh(lo, hi, true);
            other.lemma_strip_weigh(lo, hi, true);
        }
    }
}

} // verus!
