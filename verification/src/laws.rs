//! Laws of the arithmetic, proved of the model.
use crate::digit::DualBalancedTernaryDigit;
use crate::model::{
    all_center, lemma_strip_tail, lemma_strip_tail_empty, pad_to, strip_tail, TernaryView,
};
use vstd::prelude::*;

verus! {

/// `times` is the product where its first argument is a coordinate of a
/// digit.
pub proof fn lemma_times_is_product(unit: int, value: int)
    requires
        -1 <= unit <= 1,
    ensures
        crate::digit::times(unit, value) == unit * value,
{
    assert(crate::digit::times(unit, value) == unit * value) by (nonlinear_arith)
        requires
            -1 <= unit <= 1,
            crate::digit::times(unit, value) == if unit > 0 {
                value
            } else if unit < 0 {
                -value
            } else {
                0
            },
    ;
}

impl DualBalancedTernaryDigit {
    /// Negating twice gives the digit back, and the centre is its own
    /// inverse.
    pub proof fn lemma_negate_involution(self)
        ensures
            self.spec_negate().spec_negate() == self,
            Self::Dbt5.spec_negate() == Self::Dbt5,
    {
    }

    /// Both mirrorings undo themselves, keep the centre, and keep the digits
    /// on the axis that they mirror across; together they negate.
    pub proof fn lemma_flips(self)
        ensures
            self.spec_flip_front_back().spec_flip_front_back() == self,
            self.spec_flip_left_right().spec_flip_left_right() == self,
            self.spec_flip_xy().spec_flip_xy() == self,
            self.y() == 0 ==> self.spec_flip_front_back() == self,
            self.x() == 0 ==> self.spec_flip_left_right() == self,
            self.x() == self.y() ==> self.spec_flip_xy() == self,
            self.spec_flip_front_back().spec_flip_left_right() == self.spec_negate(),
    {
    }

    /// The two quarter turns undo each other and keep the centre; two of the
    /// same negate, and four give the digit back.
    pub proof fn lemma_rotations(self)
        ensures
            self.spec_rotate3().spec_rotate7() == self,
            self.spec_rotate7().spec_rotate3() == self,
            self.spec_rotate3().spec_rotate3() == self.spec_negate(),
            self.spec_rotate7().spec_rotate7() == self.spec_negate(),
            self.spec_rotate3().spec_rotate3().spec_rotate3().spec_rotate3() == self,
            Self::Dbt5.spec_rotate3() == Self::Dbt5,
            Self::Dbt5.spec_rotate7() == Self::Dbt5,
            self != Self::Dbt5 ==> self.spec_rotate3() != self && self.spec_rotate3().spec_rotate3()
                != self && self.spec_rotate3().spec_rotate3().spec_rotate3() != self,
    {
    }

    /// The sum of two digits does not depend on their order; the centre adds
    /// nothing and carries nothing; carry and digit give the sum back in each
    /// coordinate.
    pub proof fn lemma_add(self, rhs: Self)
        ensures
            self.spec_add(rhs) == rhs.spec_add(self),
            Self::Dbt5.spec_add(rhs) == (Self::Dbt5, rhs),
            3 * self.spec_add(rhs).0.x() + self.spec_add(rhs).1.x() == self.x() + rhs.x(),
            3 * self.spec_add(rhs).0.y() + self.spec_add(rhs).1.y() == self.y() + rhs.y(),
    {
    }

    /// But for `8 * 1`, carry and digit of a product give the product of the
    /// two digits as complex numbers, with `1` as the unit and `3` as the
    /// imaginary unit.
    pub proof fn lemma_mul_is_complex_product(self, rhs: Self)
        requires
            !(self == Self::Dbt8 && rhs == Self::Dbt1),
        ensures
            3 * self.spec_mul(rhs).0.x() + self.spec_mul(rhs).1.x() == self.y() * rhs.x() + self.x()
                * rhs.y(),
            3 * self.spec_mul(rhs).0.y() + self.spec_mul(rhs).1.y() == self.y() * rhs.y() - self.x()
                * rhs.x(),
    {
        self.lemma_at_coordinates();
        rhs.lemma_at_coordinates();
        lemma_times_is_product(self.y(), rhs.x());
        lemma_times_is_product(self.x(), rhs.y());
        lemma_times_is_product(self.y(), rhs.y());
        lemma_times_is_product(self.x(), rhs.x());
    }

    /// But for `8 * 1`, the product of two digits does not depend on their
    /// order.
    pub proof fn lemma_mul_commutes(self, rhs: Self)
        requires
            !(self == Self::Dbt8 && rhs == Self::Dbt1),
            !(self == Self::Dbt1 && rhs == Self::Dbt8),
        ensures
            self.spec_mul(rhs) == rhs.spec_mul(self),
    {
    }

    /// The two parts of a digit lie each on its axis and add up to the digit,
    /// with no carry.
    pub proof fn lemma_split_yx(self)
        ensures
            self.spec_split_yx().0.x() == 0,
            self.spec_split_yx().1.y() == 0,
            self.spec_split_yx().0.spec_add(self.spec_split_yx().1) == (Self::Dbt5, self),
    {
    }

    /// Code and character of a digit give the digit back, and no two digits
    /// share a code, a character or a pair of coordinates.
    pub proof fn lemma_conversions(self, other: Self)
        ensures
            Self::spec_from_u8(self.spec_to_u8()) == Ok::<Self, crate::error::DigitError>(self),
            Self::spec_from_char(self.spec_to_char()) == Ok::<Self, crate::error::DigitError>(self),
            self.spec_to_u8() == other.spec_to_u8() ==> self == other,
            self.spec_to_char() == other.spec_to_char() ==> self == other,
            self.x() == other.x() && self.y() == other.y() ==> self == other,
    {
    }

    /// A digit and its additive inverse add up to the centre, with no carry.
    pub proof fn lemma_add_negate(self)
        ensures
            self.spec_add(self.spec_negate()) == (Self::Dbt5, Self::Dbt5),
            self.spec_negate() == Self::Dbt5 <==> self == Self::Dbt5,
    {
    }
}

/// Whether every digit among the pairs is `1`, `5` or `9`.
pub open spec fn pairs_linear(pairs: Seq<(int, DualBalancedTernaryDigit)>) -> bool {
    forall|k: int| 0 <= k < pairs.len() ==> (#[trigger] pairs[k]).1.x() == 0
}

impl DualBalancedTernaryDigit {
    /// Sums and products of digits on the axis through `1` and `9` stay on
    /// it, carry and digit alike, and so do their additive inverses. A
    /// product of two such digits has no carry.
    pub proof fn lemma_linear_closed(self, rhs: Self)
        requires
            self.x() == 0,
            rhs.x() == 0,
        ensures
            self.spec_add(rhs).0.x() == 0,
            self.spec_add(rhs).1.x() == 0,
            self.spec_mul(rhs).0 == Self::Dbt5,
            self.spec_mul(rhs).1.x() == 0,
            self.spec_negate().x() == 0,
    {
    }
}

impl TernaryView {
    /// Adding a digit on the axis through `1` and `9` to a number on it gives
    /// a number on it.
    pub proof fn lemma_add_at_linear(self, place: int, d: DualBalancedTernaryDigit)
        requires
            self.is_linear_ternary(),
            d.x() == 0,
        ensures
            self.add_at(place, d).is_linear_ternary(),
        decreases self.integral.len() - place,
    {
        if d == DualBalancedTernaryDigit::Dbt5 {
        } else if place >= 0 {
            if place >= self.integral.len() {
            } else {
                self.integral[place].lemma_linear_closed(d);
                let (carry, unit) = self.integral[place].spec_add(d);
                let next = TernaryView { integral: self.integral.update(place, unit), ..self };
                next.lemma_add_at_linear(place + 1, carry);
            }
        } else {
            let deep = -1 - place;
            if deep >= self.fractional.len() {
            } else {
                self.fractional[deep].lemma_linear_closed(d);
                let (carry, unit) = self.fractional[deep].spec_add(d);
                let next = TernaryView { fractional: self.fractional.update(deep, unit), ..self };
                next.lemma_add_at_linear(place + 1, carry);
            }
        }
    }

    /// Adding digits on the axis, each at its place, to a number on the axis
    /// gives a number on it.
    pub proof fn lemma_add_pairs_linear(self, pairs: Seq<(int, DualBalancedTernaryDigit)>)
        requires
            self.is_linear_ternary(),
            pairs_linear(pairs),
        ensures
            self.add_pairs(pairs).is_linear_ternary(),
        decreases pairs.len(),
    {
        if pairs.len() > 0 {
            assert(pairs_linear(pairs.drop_last())) by {
                assert forall|k: int| 0 <= k < pairs.drop_last().len() implies (
                #[trigger] pairs.drop_last()[k]).1.x() == 0 by {
                    assert(pairs.drop_last()[k] == pairs[k]);
                }
            }
            self.lemma_add_pairs_linear(pairs.drop_last());
            assert(pairs.last() == pairs[pairs.len() - 1]);
            self.add_pairs(pairs.drop_last()).lemma_add_at_linear(pairs.last().0, pairs.last().1);
        }
    }

    /// The pairs of a number on the axis hold digits on the axis only; so do
    /// its canonical form and its additive inverse.
    pub proof fn lemma_linear_parts(self)
        requires
            self.is_linear_ternary(),
        ensures
            pairs_linear(self.pairs()),
            self.strip_empty_tails().is_linear_ternary(),
            self.negate().is_linear_ternary(),
    {
        lemma_strip_tail(self.integral);
        lemma_strip_tail(self.fractional);
        assert forall|i: int| 0 <= i < self.negate().integral.len() implies self.negate().integral[i].x()
            == 0 by {
            self.integral[i].lemma_linear_closed(self.integral[i]);
        }
        assert forall|i: int|
            0 <= i < self.negate().fractional.len() implies self.negate().fractional[i].x()
            == 0 by {
            self.fractional[i].lemma_linear_closed(self.fractional[i]);
        }
    }

    /// Sums and differences of numbers on the axis through `1` and `9` lie on
    /// it.
    pub proof fn lemma_add_linear(self, other: Self)
        requires
            self.is_linear_ternary(),
            other.is_linear_ternary(),
        ensures
            self.add(other).is_linear_ternary(),
            self.sub(other).is_linear_ternary(),
    {
        other.lemma_linear_parts();
        self.lemma_add_pairs_linear(other.pairs());
        self.add_pairs(other.pairs()).lemma_linear_parts();
        other.negate().lemma_linear_parts();
        self.lemma_add_pairs_linear(other.negate().pairs());
        self.add_pairs(other.negate().pairs()).lemma_linear_parts();
    }

    /// Adding the products of a digit on the axis and the digits of a row on
    /// the axis to a number on the axis gives a number on it.
    pub proof fn lemma_add_row_linear(
        self,
        place: int,
        a: DualBalancedTernaryDigit,
        row: Seq<(int, DualBalancedTernaryDigit)>,
    )
        requires
            self.is_linear_ternary(),
            a.x() == 0,
            pairs_linear(row),
        ensures
            self.add_row(place, a, row).is_linear_ternary(),
        decreases row.len(),
    {
        if row.len() > 0 {
            assert(pairs_linear(row.drop_last())) by {
                assert forall|k: int| 0 <= k < row.drop_last().len() implies (
                #[trigger] row.drop_last()[k]).1.x() == 0 by {
                    assert(row.drop_last()[k] == row[k]);
                }
            }
            self.lemma_add_row_linear(place, a, row.drop_last());
            assert(row.last() == row[row.len() - 1]);
            let before = self.add_row(place, a, row.drop_last());
            a.lemma_linear_closed(row.last().1);
            let (carry, unit) = a.spec_mul(row.last().1);
            before.lemma_add_at_linear(place + row.last().0, unit);
            before.add_at(place + row.last().0, unit).lemma_add_at_linear(
                place + row.last().0 + 1,
                carry,
            );
        }
    }

    /// Adding the products of the digits of rows on the axis and the digits
    /// of a row on the axis to a number on the axis gives a number on it.
    pub proof fn lemma_add_rows_linear(
        self,
        rows: Seq<(int, DualBalancedTernaryDigit)>,
        row: Seq<(int, DualBalancedTernaryDigit)>,
    )
        requires
            self.is_linear_ternary(),
            pairs_linear(rows),
            pairs_linear(row),
        ensures
            self.add_rows(rows, row).is_linear_ternary(),
        decreases rows.len(),
    {
        if rows.len() > 0 {
            assert(pairs_linear(rows.drop_last())) by {
                assert forall|k: int| 0 <= k < rows.drop_last().len() implies (
                #[trigger] rows.drop_last()[k]).1.x() == 0 by {
                    assert(rows.drop_last()[k] == rows[k]);
                }
            }
            self.lemma_add_rows_linear(rows.drop_last(), row);
            assert(rows.last() == rows[rows.len() - 1]);
            self.add_rows(rows.drop_last(), row).lemma_add_row_linear(
                rows.last().0,
                rows.last().1,
                row,
            );
        }
    }

    /// The product of two numbers on the axis through `1` and `9` lies on
    /// it.
    pub proof fn lemma_mul_linear(self, other: Self)
        requires
            self.is_linear_ternary(),
            other.is_linear_ternary(),
        ensures
            self.mul(other).is_linear_ternary(),
    {
        self.lemma_linear_parts();
        other.lemma_linear_parts();
        Self::zero().lemma_add_rows_linear(self.pairs(), other.pairs());
    }

    /// A number that is not zero has a leading digit: it is not the centre,
    /// it stands at the place that `first_digit` names, and above it stand
    /// centre digits only.
    pub proof fn lemma_first_digit(self)
        requires
            !self.is_zero(),
        ensures
            self.first_digit().0 != DualBalancedTernaryDigit::Dbt5,
            self.first_digit().0 == self.digit_at(self.first_digit().1),
            forall|place: int|
                place > self.first_digit().1 ==> self.digit_at(place)
                    == DualBalancedTernaryDigit::Dbt5,
            -self.fractional.len() <= self.first_digit().1 < self.integral.len(),
    {
        let c = self.strip_empty_tails();
        lemma_strip_tail(self.integral);
        lemma_strip_tail(self.fractional);
        lemma_strip_tail_empty(self.integral);
        lemma_strip_tail_empty(self.fractional);
        if c.integral.len() > 0 {
            assert(c.integral.last() == self.integral[c.integral.len() - 1]);
        } else {
            crate::model::lemma_leading_centers(c.fractional);
            let deep = crate::model::leading_centers(c.fractional);
            assert(c.fractional.last() != DualBalancedTernaryDigit::Dbt5);
            assert(deep < c.fractional.len());
            assert(c.fractional[deep] == self.fractional[deep]);
            assert forall|place: int| place > -1 - deep implies self.digit_at(place)
                == DualBalancedTernaryDigit::Dbt5 by {
                if place < 0 {
                    assert(c.fractional[-1 - place] == self.fractional[-1 - place]);
                }
            }
        }
    }

    /// The leading digit of a number on the axis through `1` and `9` that is
    /// not zero is `1` or `9`.
    pub proof fn lemma_first_digit_linear(self)
        requires
            !self.is_zero(),
            self.is_linear_ternary(),
        ensures
            self.first_digit().0 == DualBalancedTernaryDigit::Dbt1 || self.first_digit().0
                == DualBalancedTernaryDigit::Dbt9,
    {
        self.lemma_first_digit();
        let (digit, place) = self.first_digit();
        assert(digit.x() == 0);
    }

    /// Bringing a number into canonical form twice is the same as doing it
    /// once.
    pub proof fn lemma_strip_empty_tails_idempotent(self)
        ensures
            self.strip_empty_tails().strip_empty_tails() == self.strip_empty_tails(),
            self.strip_empty_tails().is_canonical(),
    {
        lemma_strip_tail(self.integral);
        lemma_strip_tail(self.fractional);
        lemma_strip_tail(strip_tail(self.integral));
        lemma_strip_tail(strip_tail(self.fractional));
    }

    /// The number with the centre in place of the digits that the first `k`
    /// of its pairs name.
    pub open spec fn cleared(self, k: int) -> Self {
        TernaryView {
            integral: Seq::new(
                self.integral.len(),
                |i: int|
                    if i < k {
                        DualBalancedTernaryDigit::Dbt5
                    } else {
                        self.integral[i]
                    },
            ),
            fractional: Seq::new(
                self.fractional.len(),
                |j: int|
                    if self.integral.len() + j < k {
                        DualBalancedTernaryDigit::Dbt5
                    } else {
                        self.fractional[j]
                    },
            ),
        }
    }

    /// Adding the first `k` digits of the additive inverse, each at its
    /// place, clears the digits at these places: no carry ever leaves a
    /// place.
    #[verifier::rlimit(40)]
    pub proof fn lemma_add_negated_pairs(self, k: int)
        requires
            0 <= k <= self.integral.len() + self.fractional.len(),
        ensures
            self.add_pairs(self.negate().pairs().take(k)) == self.cleared(k),
        decreases k,
    {
        let pairs = self.negate().pairs();
        if k == 0 {
            assert(pairs.take(0).len() == 0);
            assert(self.cleared(0).integral =~= self.integral);
            assert(self.cleared(0).fractional =~= self.fractional);
        } else {
            self.lemma_add_negated_pairs(k - 1);
            assert(pairs.take(k).drop_last() == pairs.take(k - 1));
            let before = self.cleared(k - 1);
            let (place, d) = pairs.take(k).last();
            assert(pairs.take(k).last() == pairs[k - 1]);
            let here = if k - 1 < self.integral.len() {
                self.integral[k - 1]
            } else {
                self.fractional[k - 1 - self.integral.len()]
            };
            assert(d == here.spec_negate());
            here.lemma_add_negate();
            reveal_with_fuel(TernaryView::add_at, 2);
            let after = before.add_at(place, d);
            assert(after.integral =~= self.cleared(k).integral);
            assert(after.fractional =~= self.cleared(k).fractional);
        }
    }

    /// A number and its additive inverse add up to zero.
    pub proof fn lemma_add_negate(self)
        ensures
            self.add(self.negate()) == Self::zero(),
            self.sub(self) == Self::zero(),
    {
        let n = self.integral.len() + self.fractional.len();
        let pairs = self.negate().pairs();
        self.lemma_add_negated_pairs(n as int);
        assert(pairs.take(n as int) == pairs);
        let sum = self.cleared(n as int);
        assert(all_center(sum.integral));
        assert(all_center(sum.fractional));
        lemma_strip_tail_empty(sum.integral);
        lemma_strip_tail_empty(sum.fractional);
        assert(strip_tail(sum.integral) =~= Seq::empty());
        assert(strip_tail(sum.fractional) =~= Seq::empty());
    }

    /// Moving the radix point by `n` places moves every digit `n` places up:
    /// what stood at a place stands `n` places higher afterwards, and the
    /// centre stands where nothing moved to.
    pub proof fn lemma_move_by_places(self, n: int, place: int)
        ensures
            self.move_by(n).digit_at(place + n) == self.digit_at(place),
    {
        let moved = self.move_by(n);
        if n >= 0 {
            let taken = pad_to(self.fractional, n).take(n).reverse();
            assert(taken.len() == n);
            if 0 <= place + n < n {
                assert(moved.integral[place + n] == taken[place + n]);
                assert(taken[place + n] == pad_to(self.fractional, n).take(n)[-1 - place]);
            } else if place + n >= n && place + n < moved.integral.len() {
                assert(moved.integral[place + n] == self.integral[place]);
            }
        } else {
            let taken = pad_to(self.integral, -n).take(-n).reverse();
            assert(taken.len() == -n);
            let deep = -1 - (place + n);
            if 0 <= deep < -n {
                assert(moved.fractional[deep] == taken[deep]);
                assert(taken[deep] == pad_to(self.integral, -n).take(-n)[-n - 1 - deep]);
            } else if deep >= -n && deep < moved.fractional.len() {
                assert(moved.fractional[deep] == self.fractional[deep + n]);
            }
        }
    }

    /// Moving the radix point `n` places to the right makes the integral part
    /// `n` digits longer and the fractional part `n` digits shorter, or empty;
    /// moving it to the left does the same the other way round.
    pub proof fn lemma_move_by_lengths(self, n: int)
        ensures
            n >= 0 ==> self.move_by(n).integral.len() == self.integral.len() + n,
            n >= 0 ==> self.move_by(n).fractional.len() == if n <= self.fractional.len() {
                self.fractional.len() - n
            } else {
                0
            },
            n < 0 ==> self.move_by(n).fractional.len() == self.fractional.len() - n,
            n < 0 ==> self.move_by(n).integral.len() == if -n <= self.integral.len() {
                self.integral.len() + n
            } else {
                0
            },
    {
    }
}

} // verus!
