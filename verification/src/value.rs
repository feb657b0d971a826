//! The point of the plane that a number stands for, and what the arithmetic
//! does to it.
//!
//! A digit at place `p` weighs `3^p`, and a number stands for the sum of its
//! digits' vectors, each times its weight. To stay with integers, the sum is
//! taken over a window of places `lo..hi` and in units of `3^lo`: for a
//! window that holds every digit of a number, `weigh(lo, hi, false)` and
//! `weigh(lo, hi, true)` are its two coordinates times `3^(-lo)`.
use crate::digit::DualBalancedTernaryDigit;
use crate::model::{lemma_strip_tail, TernaryView};
use vstd::prelude::*;

verus! {

/// The power `3^n`.
pub open spec fn pow3(n: nat) -> int
    decreases n,
{
    if n == 0 {
        1
    } else {
        3 * pow3((n - 1) as nat)
    }
}

impl DualBalancedTernaryDigit {
    /// One coordinate of the digit: the vertical one, along `1`, or the
    /// horizontal one, along `3`.
    pub open spec fn coordinate(self, vertical: bool) -> int {
        if vertical {
            self.y()
        } else {
            self.x()
        }
    }
}

impl TernaryView {
    /// One coordinate of the digits at the places from `lo` up to, but not
    /// including, `hi`, in units of `3^lo`: the sum of the digits'
    /// coordinates, the one at place `p` times `3^(p - lo)`.
    pub open spec fn weigh(self, lo: int, hi: int, vertical: bool) -> int
        decreases hi - lo,
    {
        if lo >= hi {
            0
        } else {
            self.digit_at(lo).coordinate(vertical) + 3 * self.weigh(lo + 1, hi, vertical)
        }
    }

    /// Whether the window of places from `lo` up to, but not including, `hi`
    /// holds every digit of the number.
    pub open spec fn within(self, lo: int, hi: int) -> bool {
        lo <= -self.fractional.len() && self.integral.len() <= hi
    }

    /// Whether two numbers have the same digit at every place of a window.
    pub open spec fn agrees(self, other: Self, lo: int, hi: int) -> bool {
        forall|place: int| lo <= place < hi ==> self.digit_at(place) == other.digit_at(place)
    }

    /// Numbers with the same digits in a window weigh the same there.
    pub proof fn lemma_weigh_agrees(self, other: Self, lo: int, hi: int, vertical: bool)
        requires
            self.agrees(other, lo, hi),
        ensures
            self.weigh(lo, hi, vertical) == other.weigh(lo, hi, vertical),
        decreases hi - lo,
    {
        if lo < hi {
            self.lemma_weigh_agrees(other, lo + 1, hi, vertical);
        }
    }

    /// A window that holds centre digits only weighs nothing.
    pub proof fn lemma_weigh_centers(self, lo: int, hi: int, vertical: bool)
        requires
            forall|place: int|
                lo <= place < hi ==> self.digit_at(place) == DualBalancedTernaryDigit::Dbt5,
        ensures
            self.weigh(lo, hi, vertical) == 0,
        decreases hi - lo,
    {
        if lo < hi {
            self.lemma_weigh_centers(lo + 1, hi, vertical);
        }
    }

    /// Widening a window upwards over centre digits does not change what it
    /// weighs; so every window that holds a number's integral digits weighs
    /// the same.
    pub proof fn lemma_weigh_above(self, lo: int, hi: int, higher: int, vertical: bool)
        requires
            hi <= higher,
            forall|place: int|
                hi <= place < higher ==> self.digit_at(place) == DualBalancedTernaryDigit::Dbt5,
        ensures
            self.weigh(lo, higher, vertical) == self.weigh(lo, hi, vertical),
        decreases hi - lo,
    {
        if lo < hi {
            self.lemma_weigh_above(lo + 1, hi, higher, vertical);
        } else {
            self.lemma_weigh_centers(lo, higher, vertical);
        }
    }

    /// Widening a window one place downwards over a centre digit makes the
    /// unit three times smaller, and the weight three times greater.
    pub proof fn lemma_weigh_below(self, lo: int, hi: int, vertical: bool)
        requires
            lo <= hi,
            self.digit_at(lo - 1) == DualBalancedTernaryDigit::Dbt5,
        ensures
            self.weigh(lo - 1, hi, vertical) == 3 * self.weigh(lo, hi, vertical),
    {
    }

    /// Widening a window `down` places downwards below the digits of a number
    /// makes the unit `3^down` times smaller, and the weight as many times
    /// greater.
    pub proof fn lemma_weigh_rescale(self, lo: int, hi: int, down: nat, vertical: bool)
        requires
            self.within(lo, hi),
        ensures
            self.weigh(lo - down, hi, vertical) == pow3(down) * self.weigh(lo, hi, vertical),
        decreases down,
    {
        let here = self.weigh(lo, hi, vertical);
        if down == 0 {
            assert(pow3(0) * here == here) by (nonlinear_arith)
                requires
                    pow3(0) == 1,
            ;
        } else {
            self.lemma_weigh_rescale(lo, hi, (down - 1) as nat, vertical);
            self.lemma_weigh_below(lo - down + 1, hi, vertical);
            let lower = pow3((down - 1) as nat);
            assert(3 * (lower * here) == (3 * lower) * here) by (nonlinear_arith);
        }
    }

    /// Where two numbers differ at one place of a window only, their weights
    /// differ by the difference of the two digits there, times the weight of
    /// the place.
    pub proof fn lemma_weigh_change(
        self,
        other: Self,
        lo: int,
        hi: int,
        place: int,
        vertical: bool,
    )
        requires
            lo <= place < hi,
            forall|q: int| lo <= q < hi && q != place ==> self.digit_at(q) == other.digit_at(q),
        ensures
            other.weigh(lo, hi, vertical) == self.weigh(lo, hi, vertical) + (other.digit_at(
                place,
            ).coordinate(vertical) - self.digit_at(place).coordinate(vertical)) * pow3(
                (place - lo) as nat,
            ),
        decreases place - lo,
    {
        let delta = other.digit_at(place).coordinate(vertical) - self.digit_at(place).coordinate(
            vertical,
        );
        if lo == place {
            assert(self.agrees(other, lo + 1, hi));
            self.lemma_weigh_agrees(other, lo + 1, hi, vertical);
            assert(delta * pow3(0) == delta) by (nonlinear_arith)
                requires
                    pow3(0) == 1,
            ;
        } else {
            self.lemma_weigh_change(other, lo + 1, hi, place, vertical);
            let lower = pow3((place - lo - 1) as nat);
            assert(pow3((place - lo) as nat) == 3 * lower);
            assert(3 * (delta * lower) == delta * (3 * lower)) by (nonlinear_arith);
        }
    }

    /// A number whose window weighs nothing in both coordinates has centre
    /// digits only there: balanced ternary writes zero in one way.
    pub proof fn lemma_weigh_zero(self, lo: int, hi: int)
        requires
            self.weigh(lo, hi, false) == 0,
            self.weigh(lo, hi, true) == 0,
        ensures
            forall|place: int|
                lo <= place < hi ==> self.digit_at(place) == DualBalancedTernaryDigit::Dbt5,
        decreases hi - lo,
    {
        if lo < hi {
            self.digit_at(lo).lemma_at_coordinates();
            self.lemma_weigh_zero(lo + 1, hi);
        }
    }

    /// Two numbers that weigh the same in both coordinates over a window have
    /// the same digits there: balanced ternary writes every point in one way.
    pub proof fn lemma_weigh_determines_digits(self, other: Self, lo: int, hi: int)
        requires
            self.weigh(lo, hi, false) == other.weigh(lo, hi, false),
            self.weigh(lo, hi, true) == other.weigh(lo, hi, true),
        ensures
            self.agrees(other, lo, hi),
        decreases hi - lo,
    {
        if lo < hi {
            self.digit_at(lo).lemma_at_coordinates();
            other.digit_at(lo).lemma_at_coordinates();
            self.lemma_weigh_determines_digits(other, lo + 1, hi);
        }
    }

    /// Adding a digit makes no part of a number shorter. A digit other than
    /// the centre makes the part it is added to reach its place, and the
    /// integral part at most one digit longer than that.
    pub proof fn lemma_add_at_lengths(self, place: int, d: DualBalancedTernaryDigit)
        ensures
            self.add_at(place, d).integral.len() >= self.integral.len(),
            self.add_at(place, d).fractional.len() >= self.fractional.len(),
            d != DualBalancedTernaryDigit::Dbt5 && place >= 0 ==> self.add_at(
                place,
                d,
            ).integral.len() > place,
            self.add_at(place, d).integral.len() <= self.integral.len() + 1 || self.add_at(
                place,
                d,
            ).integral.len() <= place + 1,
            self.add_at(place, d).fractional.len() <= self.fractional.len() || self.add_at(
                place,
                d,
            ).fractional.len() <= -place,
        decreases self.integral.len() - place,
    {
        if d == DualBalancedTernaryDigit::Dbt5 {
        } else if place >= 0 {
            if place < self.integral.len() {
                let (carry, unit) = self.integral[place].spec_add(d);
                let next = TernaryView { integral: self.integral.update(place, unit), ..self };
                next.lemma_add_at_lengths(place + 1, carry);
            }
        } else {
            let deep = -1 - place;
            if deep < self.fractional.len() {
                let (carry, unit) = self.fractional[deep].spec_add(d);
                let next = TernaryView { fractional: self.fractional.update(deep, unit), ..self };
                next.lemma_add_at_lengths(place + 1, carry);
            }
        }
    }

    /// Whether the number has a digit at a place.
    pub open spec fn has_place(self, place: int) -> bool {
        -self.fractional.len() <= place < self.integral.len()
    }

    /// The number with another digit at a place where it has one.
    pub open spec fn put(self, place: int, d: DualBalancedTernaryDigit) -> Self {
        if place >= 0 {
            TernaryView { integral: self.integral.update(place, d), ..self }
        } else {
            TernaryView { fractional: self.fractional.update(-1 - place, d), ..self }
        }
    }

    /// Putting a digit at a place changes the digit there and no other, and
    /// no length.
    pub proof fn lemma_put(self, place: int, d: DualBalancedTernaryDigit)
        requires
            self.has_place(place),
        ensures
            self.put(place, d).digit_at(place) == d,
            forall|q: int| q != place ==> self.put(place, d).digit_at(q) == self.digit_at(q),
            self.put(place, d).integral.len() == self.integral.len(),
            self.put(place, d).fractional.len() == self.fractional.len(),
    {
    }

    /// Adding a digit other than the centre where the number has a digit
    /// leaves the digit of the sum there and adds the carry one place higher.
    pub proof fn lemma_add_at_unfold(self, place: int, d: DualBalancedTernaryDigit)
        requires
            self.has_place(place),
            d != DualBalancedTernaryDigit::Dbt5,
        ensures
            self.add_at(place, d) == self.put(place, self.digit_at(place).spec_add(d).1).add_at(
                place + 1,
                self.digit_at(place).spec_add(d).0,
            ),
    {
    }

    /// Adding a digit at a place adds the digit's vector, times the weight of
    /// the place, to what the number stands for: over every window that holds
    /// the place and the integral digits of the result, the weight grows by
    /// the digit's coordinate times `3^(place - lo)`.
    #[verifier::rlimit(40)]
    pub proof fn lemma_add_at_weigh(
        self,
        place: int,
        d: DualBalancedTernaryDigit,
        lo: int,
        hi: int,
        vertical: bool,
    )
        requires
            lo <= place < hi,
            0 <= hi,
            self.add_at(place, d).integral.len() <= hi,
        ensures
            self.add_at(place, d).weigh(lo, hi, vertical) == self.weigh(lo, hi, vertical)
                + d.coordinate(vertical) * pow3((place - lo) as nat),
        decreases self.integral.len() - place,
    {
        let weight = pow3((place - lo) as nat);
        let result = self.add_at(place, d);
        let grow = d.coordinate(vertical);
        if d == DualBalancedTernaryDigit::Dbt5 {
            assert(grow * weight == 0) by (nonlinear_arith)
                requires
                    grow == 0,
            ;
        } else if !self.has_place(place) {
            self.lemma_add_at_fresh(place, d);
            self.lemma_weigh_change(result, lo, hi, place, vertical);
        } else {
            let here = self.digit_at(place);
            let carry = here.spec_add(d).0;
            let unit = here.spec_add(d).1;
            let next = self.put(place, unit);
            let change = unit.coordinate(vertical) - here.coordinate(vertical);
            let up = carry.coordinate(vertical);
            self.lemma_add_at_unfold(place, d);
            self.lemma_put(place, unit);
            self.lemma_weigh_change(next, lo, hi, place, vertical);
            here.lemma_add(d);
            assert(change + 3 * up == grow);
            if carry == DualBalancedTernaryDigit::Dbt5 {
                assert(change * weight == grow * weight) by (nonlinear_arith)
                    requires
                        change == grow,
                ;
            } else {
                next.lemma_add_at_lengths(place + 1, carry);
                next.lemma_add_at_weigh(place + 1, carry, lo, hi, vertical);
                assert(pow3((place + 1 - lo) as nat) == 3 * weight);
                assert(change * weight + up * (3 * weight) == grow * weight) by (nonlinear_arith)
                    requires
                        change + 3 * up == grow,
                ;
            }
        }
    }

    /// Adding a digit where the centre stands puts the digit there and
    /// changes no other place.
    pub proof fn lemma_add_at_fresh(self, place: int, d: DualBalancedTernaryDigit)
        requires
            self.digit_at(place) == DualBalancedTernaryDigit::Dbt5,
        ensures
            self.add_at(place, d).digit_at(place) == d,
            forall|q: int| q != place ==> self.add_at(place, d).digit_at(q) == self.digit_at(q),
            self.add_at(place, d).integral.len() <= self.integral.len() || self.add_at(
                place,
                d,
            ).integral.len() == place + 1,
            self.add_at(place, d).fractional.len() <= self.fractional.len() || self.add_at(
                place,
                d,
            ).fractional.len() == -place,
    {
        reveal_with_fuel(TernaryView::add_at, 2);
        let result = self.add_at(place, d);
        if d != DualBalancedTernaryDigit::Dbt5 {
            assert forall|q: int| q != place implies result.digit_at(q) == self.digit_at(q) by {
                if place >= 0 && place >= self.integral.len() {
                    if 0 <= q < place && q >= self.integral.len() {
                        assert(result.integral[q] == DualBalancedTernaryDigit::Dbt5);
                    }
                } else if place < 0 && -1 - place >= self.fractional.len() {
                    if q < 0 && -1 - q < -1 - place && -1 - q >= self.fractional.len() {
                        assert(result.fractional[-1 - q] == DualBalancedTernaryDigit::Dbt5);
                    }
                }
            }
        }
    }

    /// The canonical form has the same digit at every place, and so stands
    /// for the same point.
    pub proof fn lemma_strip_weigh(self, lo: int, hi: int, vertical: bool)
        ensures
            forall|place: int| self.strip_empty_tails().digit_at(place) == self.digit_at(place),
            self.strip_empty_tails().weigh(lo, hi, vertical) == self.weigh(lo, hi, vertical),
    {
        lemma_strip_tail(self.integral);
        lemma_strip_tail(self.fractional);
        let c = self.strip_empty_tails();
        assert forall|place: int| c.digit_at(place) == self.digit_at(place) by {
            if 0 <= place < c.integral.len() {
                assert(c.integral[place] == self.integral[place]);
            } else if place < 0 && -1 - place < c.fractional.len() {
                assert(c.fractional[-1 - place] == self.fractional[-1 - place]);
            }
        }
        assert(c.agrees(self, lo, hi));
        c.lemma_weigh_agrees(self, lo, hi, vertical);
    }

    /// The additive inverse stands for the opposite point.
    pub proof fn lemma_negate_weigh(self, lo: int, hi: int, vertical: bool)
        ensures
            self.negate().weigh(lo, hi, vertical) == -self.weigh(lo, hi, vertical),
        decreases hi - lo,
    {
        if lo < hi {
            self.lemma_negate_weigh(lo + 1, hi, vertical);
            assert(self.negate().digit_at(lo) == self.digit_at(lo).spec_negate());
        }
    }

    /// Zero weighs nothing.
    pub proof fn lemma_zero_weigh(lo: int, hi: int, vertical: bool)
        ensures
            Self::zero().weigh(lo, hi, vertical) == 0,
    {
        Self::zero().lemma_weigh_centers(lo, hi, vertical);
    }

    /// Adding digits, each at its place, adds the weight of each: over every
    /// window that holds the places and the integral digits of the result, the
    /// weight grows by what the pairs weigh.
    pub proof fn lemma_add_pairs_weigh(
        self,
        pairs: Seq<(int, DualBalancedTernaryDigit)>,
        lo: int,
        hi: int,
        vertical: bool,
    )
        requires
            0 <= hi,
            forall|k: int| 0 <= k < pairs.len() ==> lo <= (#[trigger] pairs[k]).0 < hi,
            self.add_pairs(pairs).integral.len() <= hi,
        ensures
            self.add_pairs(pairs).weigh(lo, hi, vertical) == self.weigh(lo, hi, vertical)
                + pairs_weight(pairs, lo, vertical),
            self.add_pairs(pairs).integral.len() >= self.integral.len(),
            self.add_pairs(pairs).fractional.len() >= self.fractional.len(),
        decreases pairs.len(),
    {
        if pairs.len() > 0 {
            let before = self.add_pairs(pairs.drop_last());
            let (place, d) = pairs.last();
            assert(pairs.last() == pairs[pairs.len() - 1]);
            before.lemma_add_at_lengths(place, d);
            assert forall|k: int| 0 <= k < pairs.drop_last().len() implies lo <= (
            #[trigger] pairs.drop_last()[k]).0 < hi by {
                assert(pairs.drop_last()[k] == pairs[k]);
            }
            self.lemma_add_pairs_weigh(pairs.drop_last(), lo, hi, vertical);
            before.lemma_add_at_weigh(place, d, lo, hi, vertical);
        }
    }

    /// Whether a place is among those that the first `k` pairs of the number
    /// name.
    pub open spec fn covered(self, k: int, place: int) -> bool {
        (0 <= place < k && place < self.integral.len()) || (place < 0 && self.integral.len() - 1
            - place < k)
    }

    /// Adding the first `k` digits of a number to zero, each at its place,
    /// gives the number as far as these places go, and the centre elsewhere.
    #[verifier::rlimit(40)]
    pub proof fn lemma_built_from_pairs(self, k: int)
        requires
            0 <= k <= self.integral.len() + self.fractional.len(),
        ensures
            forall|place: int|
                Self::zero().add_pairs(self.pairs().take(k)).digit_at(place) == if self.covered(
                    k,
                    place,
                ) {
                    self.digit_at(place)
                } else {
                    DualBalancedTernaryDigit::Dbt5
                },
            Self::zero().add_pairs(self.pairs().take(k)).integral.len() <= self.integral.len(),
            Self::zero().add_pairs(self.pairs().take(k)).fractional.len()
                <= self.fractional.len(),
        decreases k,
    {
        let pairs = self.pairs();
        if k == 0 {
            assert(pairs.take(0).len() == 0);
        } else {
            self.lemma_built_from_pairs(k - 1);
            assert(pairs.take(k).drop_last() == pairs.take(k - 1));
            assert(pairs.take(k).last() == pairs[k - 1]);
            let before = Self::zero().add_pairs(pairs.take(k - 1));
            let (place, d) = pairs[k - 1];
            assert(!self.covered(k - 1, place));
            assert(self.digit_at(place) == d);
            before.lemma_add_at_fresh(place, d);
            let after = before.add_at(place, d);
            assert forall|q: int| after.digit_at(q) == if self.covered(k, q) {
                self.digit_at(q)
            } else {
                DualBalancedTernaryDigit::Dbt5
            } by {
                if q != place {
                    assert(after.digit_at(q) == before.digit_at(q));
                    assert(self.covered(k, q) == self.covered(k - 1, q));
                } else {
                    assert(self.covered(k, q));
                }
            }
        }
    }

    /// What the pairs of a number weigh is what the number weighs, over
    /// every window that holds its digits.
    pub proof fn lemma_pairs_weigh(self, lo: int, hi: int, vertical: bool)
        requires
            self.within(lo, hi),
        ensures
            pairs_weight(self.pairs(), lo, vertical) == self.weigh(lo, hi, vertical),
    {
        let pairs = self.pairs();
        let n = (self.integral.len() + self.fractional.len()) as int;
        let built = Self::zero().add_pairs(pairs);
        assert(pairs.take(n) == pairs);
        self.lemma_built_from_pairs(n);
        Self::zero().lemma_add_pairs_weigh(pairs, lo, hi, vertical);
        Self::lemma_zero_weigh(lo, hi, vertical);
        assert(built.agrees(self, lo, hi)) by {
            assert forall|place: int| lo <= place < hi implies built.digit_at(place)
                == self.digit_at(place) by {
                if !self.covered(n, place) {
                    assert(self.digit_at(place) == DualBalancedTernaryDigit::Dbt5);
                }
            }
        }
        built.lemma_weigh_agrees(self, lo, hi, vertical);
    }

    /// The sum stands for the sum of the two points: over every window that
    /// holds the digits of both operands and of the sum, it weighs what the
    /// two weigh together.
    #[verifier::rlimit(40)]
    pub proof fn lemma_add_weigh(self, other: Self, lo: int, hi: int, vertical: bool)
        requires
            self.within(lo, hi),
            other.within(lo, hi),
            self.add(other).within(lo, hi),
        ensures
            self.add(other).weigh(lo, hi, vertical) == self.weigh(lo, hi, vertical) + other.weigh(
                lo,
                hi,
                vertical,
            ),
    {
        let raw = self.add_pairs(other.pairs());
        let sum = self.add(other);
        let higher = if raw.integral.len() > hi {
            raw.integral.len() as int
        } else {
            hi
        };
        self.lemma_add_pairs_weigh(other.pairs(), lo, higher, vertical);
        other.lemma_pairs_weigh(lo, higher, vertical);
        raw.lemma_strip_weigh(lo, higher, vertical);
        // every term weighs the same over the window asked for
        self.lemma_weigh_above(lo, hi, higher, vertical);
        other.lemma_weigh_above(lo, hi, higher, vertical);
        sum.lemma_weigh_above(lo, hi, higher, vertical);
    }

    /// The difference stands for the difference of the two points.
    pub proof fn lemma_sub_weigh(self, other: Self, lo: int, hi: int, vertical: bool)
        requires
            self.within(lo, hi),
            other.within(lo, hi),
            self.sub(other).within(lo, hi),
        ensures
            self.sub(other).weigh(lo, hi, vertical) == self.weigh(lo, hi, vertical) - other.weigh(
                lo,
                hi,
                vertical,
            ),
    {
        self.lemma_add_weigh(other.negate(), lo, hi, vertical);
        other.lemma_negate_weigh(lo, hi, vertical);
    }

    /// Moving the radix point moves the window with it: the number stands
    /// for the same point in units that are `3^n` times smaller.
    pub proof fn lemma_move_by_weigh(self, n: int, lo: int, hi: int, vertical: bool)
        ensures
            self.move_by(n).weigh(lo + n, hi + n, vertical) == self.weigh(lo, hi, vertical),
        decreases hi - lo,
    {
        if lo < hi {
            self.lemma_move_by_places(n, lo);
            self.lemma_move_by_weigh(n, lo + 1, hi, vertical);
        }
    }

    /// Numbers with the same digit at every place have the same canonical
    /// form.
    #[verifier::rlimit(40)]
    pub proof fn lemma_same_digits_same_value(self, other: Self)
        requires
            forall|place: int| self.digit_at(place) == other.digit_at(place),
        ensures
            self.same_value(other),
    {
        let a = self.strip_empty_tails();
        let b = other.strip_empty_tails();
        self.lemma_strip_weigh(0, 0, false);
        other.lemma_strip_weigh(0, 0, false);
        lemma_strip_tail(self.integral);
        lemma_strip_tail(self.fractional);
        lemma_strip_tail(other.integral);
        lemma_strip_tail(other.fractional);
        assert forall|place: int| a.digit_at(place) == b.digit_at(place) by {
            assert(a.digit_at(place) == self.digit_at(place));
            assert(b.digit_at(place) == other.digit_at(place));
        }
        if a.integral.len() < b.integral.len() {
            assert(b.digit_at(b.integral.len() - 1) == b.integral.last());
            assert(a.digit_at(b.integral.len() - 1) == DualBalancedTernaryDigit::Dbt5);
        }
        if b.integral.len() < a.integral.len() {
            assert(a.digit_at(a.integral.len() - 1) == a.integral.last());
            assert(b.digit_at(a.integral.len() - 1) == DualBalancedTernaryDigit::Dbt5);
        }
        if a.fractional.len() < b.fractional.len() {
            assert(b.digit_at(-(b.fractional.len() as int)) == b.fractional.last());
            assert(a.digit_at(-(b.fractional.len() as int)) == DualBalancedTernaryDigit::Dbt5);
        }
        if b.fractional.len() < a.fractional.len() {
            assert(a.digit_at(-(a.fractional.len() as int)) == a.fractional.last());
            assert(b.digit_at(-(a.fractional.len() as int)) == DualBalancedTernaryDigit::Dbt5);
        }
        assert forall|i: int| 0 <= i < a.integral.len() implies a.integral[i] == b.integral[i] by {
            assert(a.digit_at(i) == b.digit_at(i));
        }
        assert forall|j: int| 0 <= j < a.fractional.len() implies a.fractional[j]
            == b.fractional[j] by {
            assert(a.digit_at(-1 - j) == b.digit_at(-1 - j));
        }
        assert(a.integral =~= b.integral);
        assert(a.fractional =~= b.fractional);
    }

    /// Numbers that stand for the same point are equal: where two numbers
    /// weigh the same in both coordinates over a window that holds the digits
    /// of both, their canonical forms are the same.
    pub proof fn lemma_same_weight_same_value(self, other: Self, lo: int, hi: int)
        requires
            self.within(lo, hi),
            other.within(lo, hi),
            self.weigh(lo, hi, false) == other.weigh(lo, hi, false),
            self.weigh(lo, hi, true) == other.weigh(lo, hi, true),
        ensures
            self.same_value(other),
    {
        self.lemma_weigh_determines_digits(other, lo, hi);
        assert forall|place: int| self.digit_at(place) == other.digit_at(place) by {
            if !(lo <= place < hi) {
                assert(self.digit_at(place) == DualBalancedTernaryDigit::Dbt5);
                assert(other.digit_at(place) == DualBalancedTernaryDigit::Dbt5);
            }
        }
        self.lemma_same_digits_same_value(other);
    }

    /// The sum is the one number in canonical form that stands for the sum of
    /// the two points.
    pub proof fn lemma_add_is_the_sum(self, other: Self, sum: Self, lo: int, hi: int)
        requires
            sum.is_canonical(),
            self.within(lo, hi),
            other.within(lo, hi),
            sum.within(lo, hi),
            self.add(other).within(lo, hi),
            sum.weigh(lo, hi, false) == self.weigh(lo, hi, false) + other.weigh(lo, hi, false),
            sum.weigh(lo, hi, true) == self.weigh(lo, hi, true) + other.weigh(lo, hi, true),
        ensures
            sum == self.add(other),
    {
        self.lemma_add_weigh(other, lo, hi, false);
        self.lemma_add_weigh(other, lo, hi, true);
        sum.lemma_same_weight_same_value(self.add(other), lo, hi);
        lemma_strip_tail(sum.integral);
        lemma_strip_tail(sum.fractional);
        self.add_pairs(other.pairs()).lemma_strip_empty_tails_idempotent();
    }

    /// A map of digits that keeps the centre is applied at every place, also
    /// where the number has no digit.
    pub proof fn lemma_map_digits_at(
        self,
        f: spec_fn(DualBalancedTernaryDigit) -> DualBalancedTernaryDigit,
        place: int,
    )
        requires
            f(DualBalancedTernaryDigit::Dbt5) == DualBalancedTernaryDigit::Dbt5,
        ensures
            self.map_digits(f).digit_at(place) == f(self.digit_at(place)),
    {
    }

    /// Where a map of digits takes one coordinate of every digit to another
    /// coordinate, with a sign or to nothing, it does so to what the number
    /// weighs.
    pub proof fn lemma_map_digits_weigh(
        self,
        f: spec_fn(DualBalancedTernaryDigit) -> DualBalancedTernaryDigit,
        lo: int,
        hi: int,
        vertical: bool,
        sign: int,
        source: bool,
    )
        requires
            -1 <= sign <= 1,
            forall|d: DualBalancedTernaryDigit|
                (#[trigger] f(d)).coordinate(vertical) == crate::digit::times(
                    sign,
                    d.coordinate(source),
                ),
            f(DualBalancedTernaryDigit::Dbt5) == DualBalancedTernaryDigit::Dbt5,
        ensures
            self.map_digits(f).weigh(lo, hi, vertical) == crate::digit::times(
                sign,
                self.weigh(lo, hi, source),
            ),
        decreases hi - lo,
    {
        if lo < hi {
            self.lemma_map_digits_at(f, lo);
            self.lemma_map_digits_weigh(f, lo + 1, hi, vertical, sign, source);
        }
    }

    /// The conjugate stands for the mirror image across the axis through
    /// `1`: the horizontal coordinate changes its sign, the vertical one
    /// stays.
    pub proof fn lemma_conjugate_weigh(self, lo: int, hi: int)
        ensures
            self.conjugate().weigh(lo, hi, false) == -self.weigh(lo, hi, false),
            self.conjugate().weigh(lo, hi, true) == self.weigh(lo, hi, true),
    {
        let f = |d: DualBalancedTernaryDigit| d.spec_flip_left_right();
        self.lemma_map_digits_weigh(f, lo, hi, false, -1, false);
        self.lemma_map_digits_weigh(f, lo, hi, true, 1, true);
    }

    /// The number turned a quarter clockwise stands for the point turned so:
    /// `(x, y)` becomes `(y, -x)`.
    pub proof fn lemma_rotate3_weigh(self, lo: int, hi: int)
        ensures
            self.rotate3().weigh(lo, hi, false) == self.weigh(lo, hi, true),
            self.rotate3().weigh(lo, hi, true) == -self.weigh(lo, hi, false),
    {
        let f = |d: DualBalancedTernaryDigit| d.spec_rotate3();
        self.lemma_map_digits_weigh(f, lo, hi, false, 1, true);
        self.lemma_map_digits_weigh(f, lo, hi, true, -1, false);
    }

    /// The number turned a quarter anti-clockwise stands for the point turned
    /// so: `(x, y)` becomes `(-y, x)`.
    pub proof fn lemma_rotate7_weigh(self, lo: int, hi: int)
        ensures
            self.rotate7().weigh(lo, hi, false) == -self.weigh(lo, hi, true),
            self.rotate7().weigh(lo, hi, true) == self.weigh(lo, hi, false),
    {
        let f = |d: DualBalancedTernaryDigit| d.spec_rotate7();
        self.lemma_map_digits_weigh(f, lo, hi, false, -1, true);
        self.lemma_map_digits_weigh(f, lo, hi, true, 1, false);
    }

    /// The number with its axes exchanged stands for the point with its
    /// coordinates exchanged.
    pub proof fn lemma_flip_xy_weigh(self, lo: int, hi: int)
        ensures
            self.flip_xy().weigh(lo, hi, false) == self.weigh(lo, hi, true),
            self.flip_xy().weigh(lo, hi, true) == self.weigh(lo, hi, false),
    {
        let f = |d: DualBalancedTernaryDigit| d.spec_flip_xy();
        self.lemma_map_digits_weigh(f, lo, hi, false, 1, true);
        self.lemma_map_digits_weigh(f, lo, hi, true, 1, false);
    }

    /// The two parts of a number stand for the two coordinates of its point:
    /// the first part for the vertical one alone, the second for the
    /// horizontal one alone. The first part lies on the axis through `1`, and
    /// so does the second once it is turned a quarter anti-clockwise.
    #[verifier::rlimit(40)]
    pub proof fn lemma_split_yx_weigh(self, lo: int, hi: int)
        ensures
            self.split_yx().0.weigh(lo, hi, true) == self.weigh(lo, hi, true),
            self.split_yx().0.weigh(lo, hi, false) == 0,
            self.split_yx().1.weigh(lo, hi, false) == self.weigh(lo, hi, false),
            self.split_yx().1.weigh(lo, hi, true) == 0,
            self.split_yx().0.is_linear_ternary(),
            self.split_yx().1.rotate7().is_linear_ternary(),
            self.split_yx().0.is_canonical(),
            self.split_yx().1.is_canonical(),
    {
        let f_y = |d: DualBalancedTernaryDigit| d.spec_split_yx().0;
        let f_x = |d: DualBalancedTernaryDigit| d.spec_split_yx().1;
        let raw_y = self.map_digits(f_y);
        let raw_x = self.map_digits(f_x);
        self.lemma_map_digits_weigh(f_y, lo, hi, true, 1, true);
        self.lemma_map_digits_weigh(f_y, lo, hi, false, 0, true);
        self.lemma_map_digits_weigh(f_x, lo, hi, false, 1, false);
        self.lemma_map_digits_weigh(f_x, lo, hi, true, 0, true);
        raw_y.lemma_strip_weigh(lo, hi, true);
        raw_y.lemma_strip_weigh(lo, hi, false);
        raw_x.lemma_strip_weigh(lo, hi, true);
        raw_x.lemma_strip_weigh(lo, hi, false);
        lemma_strip_tail(raw_y.integral);
        lemma_strip_tail(raw_y.fractional);
        lemma_strip_tail(raw_x.integral);
        lemma_strip_tail(raw_x.fractional);
        let part_x = self.split_yx().1;
        assert forall|i: int| 0 <= i < part_x.rotate7().integral.len() implies part_x.rotate7().integral[i].x()
            == 0 by {
            assert(part_x.integral[i] == raw_x.integral[i]);
        }
        assert forall|j: int|
            0 <= j < part_x.rotate7().fractional.len() implies part_x.rotate7().fractional[j].x()
            == 0 by {
            assert(part_x.fractional[j] == raw_x.fractional[j]);
        }
    }
}

/// What digits at places weigh together in one coordinate, in units of
/// `3^lo`.
pub open spec fn pairs_weight(
    pairs: Seq<(int, DualBalancedTernaryDigit)>,
    lo: int,
    vertical: bool,
) -> int
    decreases pairs.len(),
{
    if pairs.len() == 0 {
        0
    } else {
        pairs_weight(pairs.drop_last(), lo, vertical) + pairs.last().1.coordinate(vertical) * pow3(
            (pairs.last().0 - lo) as nat,
        )
    }
}

} // verus!
