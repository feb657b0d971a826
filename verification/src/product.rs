//! What multiplication does to the points that numbers stand for: but for one
//! pair of digits, it multiplies them as complex numbers, with `1` as the
//! unit and `3` as the imaginary unit.
use crate::digit::DualBalancedTernaryDigit;
use crate::model::TernaryView;
use crate::value::{pairs_weight, pow3};
use vstd::prelude::*;

verus! {

/// One coordinate of the product of two points `(xa, ya)` and `(xb, yb)` as
/// complex numbers whose real part is the vertical coordinate.
pub open spec fn times_coordinate(xa: int, ya: int, xb: int, yb: int, vertical: bool) -> int {
    if vertical {
        ya * yb - xa * xb
    } else {
        ya * xb + xa * yb
    }
}

/// Whether the pair of digits is the one whose product in the table is not
/// the complex product: `8` on the left and `1` on the right.
pub open spec fn irregular(a: DualBalancedTernaryDigit, b: DualBalancedTernaryDigit) -> bool {
    a == DualBalancedTernaryDigit::Dbt8 && b == DualBalancedTernaryDigit::Dbt1
}

/// Whether no digit on the left meets a digit on the right in the irregular
/// pair.
pub open spec fn regular(
    rows: Seq<(int, DualBalancedTernaryDigit)>,
    row: Seq<(int, DualBalancedTernaryDigit)>,
) -> bool {
    forall|i: int, j: int|
        0 <= i < rows.len() && 0 <= j < row.len() ==> !irregular(
            (#[trigger] rows[i]).1,
            (#[trigger] row[j]).1,
        )
}

/// Whether every place among the pairs lies in a window.
pub open spec fn places_within(pairs: Seq<(int, DualBalancedTernaryDigit)>, lo: int, hi: int) -> bool {
    forall|k: int| 0 <= k < pairs.len() ==> lo <= (#[trigger] pairs[k]).0 < hi
}

/// Powers of 3 multiply as their exponents add.
pub proof fn lemma_pow3_adds(m: nat, n: nat)
    ensures
        pow3(m + n) == pow3(m) * pow3(n),
        pow3(m) > 0,
    decreases m,
{
    if m == 0 {
        assert(pow3(0) * pow3(n) == pow3(n)) by (nonlinear_arith)
            requires
                pow3(0) == 1,
        ;
    } else {
        lemma_pow3_adds((m - 1) as nat, n);
        let lower = pow3((m - 1) as nat);
        assert(pow3(m + n) == 3 * pow3((m - 1 + n) as nat));
        assert(3 * (lower * pow3(n)) == (3 * lower) * pow3(n)) by (nonlinear_arith);
    }
}

/// The complex product is linear in its left factor.
pub proof fn lemma_times_adds_left(
    xa: int,
    ya: int,
    xc: int,
    yc: int,
    xb: int,
    yb: int,
    vertical: bool,
)
    ensures
        times_coordinate(xa + xc, ya + yc, xb, yb, vertical) == times_coordinate(
            xa,
            ya,
            xb,
            yb,
            vertical,
        ) + times_coordinate(xc, yc, xb, yb, vertical),
{
    assert((ya + yc) * yb - (xa + xc) * xb == (ya * yb - xa * xb) + (yc * yb - xc * xb))
        by (nonlinear_arith);
    assert((ya + yc) * xb + (xa + xc) * yb == (ya * xb + xa * yb) + (yc * xb + xc * yb))
        by (nonlinear_arith);
}

/// The complex product is linear in its right factor.
pub proof fn lemma_times_adds_right(
    xa: int,
    ya: int,
    xb: int,
    yb: int,
    xc: int,
    yc: int,
    vertical: bool,
)
    ensures
        times_coordinate(xa, ya, xb + xc, yb + yc, vertical) == times_coordinate(
            xa,
            ya,
            xb,
            yb,
            vertical,
        ) + times_coordinate(xa, ya, xc, yc, vertical),
{
    assert(ya * (yb + yc) - xa * (xb + xc) == (ya * yb - xa * xb) + (ya * yc - xa * xc))
        by (nonlinear_arith);
    assert(ya * (xb + xc) + xa * (yb + yc) == (ya * xb + xa * yb) + (ya * xc + xa * yc))
        by (nonlinear_arith);
}

/// Scaling both factors scales the complex product by the product of the
/// scales.
pub proof fn lemma_times_scales(
    xa: int,
    ya: int,
    xb: int,
    yb: int,
    wa: int,
    wb: int,
    vertical: bool,
)
    ensures
        times_coordinate(xa * wa, ya * wa, xb * wb, yb * wb, vertical) == times_coordinate(
            xa,
            ya,
            xb,
            yb,
            vertical,
        ) * (wa * wb),
{
    let w = wa * wb;
    lemma_scaled_product(ya, wa, yb, wb);
    lemma_scaled_product(xa, wa, xb, wb);
    lemma_scaled_product(ya, wa, xb, wb);
    lemma_scaled_product(xa, wa, yb, wb);
    let yy = ya * yb;
    let xx = xa * xb;
    let yx = ya * xb;
    let xy = xa * yb;
    assert(yy * w - xx * w == (yy - xx) * w) by (nonlinear_arith);
    assert(yx * w + xy * w == (yx + xy) * w) by (nonlinear_arith);
}

/// The product of two scaled numbers is the product of the numbers, scaled by
/// the product of the scales.
pub proof fn lemma_scaled_product(a: int, wa: int, b: int, wb: int)
    ensures
        (a * wa) * (b * wb) == (a * b) * (wa * wb),
{
    vstd::arithmetic::mul::lemma_mul_is_associative(a, wa, b * wb);
    vstd::arithmetic::mul::lemma_mul_is_associative(wa, b, wb);
    vstd::arithmetic::mul::lemma_mul_is_commutative(wa, b);
    vstd::arithmetic::mul::lemma_mul_is_associative(b, wa, wb);
    vstd::arithmetic::mul::lemma_mul_is_associative(a, b, wa * wb);
}

impl TernaryView {
    /// Adding the product of two digits at a place adds the complex product
    /// of their vectors, times the weight of the place, unless the two are
    /// the irregular pair.
    pub proof fn lemma_add_product_weigh(
        self,
        place: int,
        a: DualBalancedTernaryDigit,
        b: DualBalancedTernaryDigit,
        lo: int,
        hi: int,
        vertical: bool,
    )
        requires
            !irregular(a, b),
            lo <= place,
            place + 1 < hi,
            0 <= hi,
            self.add_product(place, a, b).integral.len() <= hi,
        ensures
            self.add_product(place, a, b).weigh(lo, hi, vertical) == self.weigh(lo, hi, vertical)
                + times_coordinate(a.x(), a.y(), b.x(), b.y(), vertical) * pow3(
                (place - lo) as nat,
            ),
            self.add_product(place, a, b).integral.len() >= self.integral.len(),
            self.add_product(place, a, b).fractional.len() >= self.fractional.len(),
    {
        let (carry, unit) = a.spec_mul(b);
        let first = self.add_at(place, unit);
        let weight = pow3((place - lo) as nat);
        self.lemma_add_at_lengths(place, unit);
        first.lemma_add_at_lengths(place + 1, carry);
        self.lemma_add_at_weigh(place, unit, lo, hi, vertical);
        first.lemma_add_at_weigh(place + 1, carry, lo, hi, vertical);
        a.lemma_mul_is_complex_product(b);
        assert(pow3((place + 1 - lo) as nat) == 3 * weight);
        let u = unit.coordinate(vertical);
        let c = carry.coordinate(vertical);
        let t = times_coordinate(a.x(), a.y(), b.x(), b.y(), vertical);
        assert(3 * c + u == t);
        assert(u * weight + c * (3 * weight) == t * weight) by (nonlinear_arith)
            requires
                3 * c + u == t,
        ;
    }

    /// Adding the products of a digit at a place and the digits of a row adds
    /// the complex product of the digit's vector, times its weight, and what
    /// the row weighs, unless the irregular pair is among them.
    #[verifier::rlimit(40)]
    pub proof fn lemma_add_row_weigh(
        self,
        place: int,
        a: DualBalancedTernaryDigit,
        row: Seq<(int, DualBalancedTernaryDigit)>,
        lo_a: int,
        lo_b: int,
        hi: int,
        vertical: bool,
    )
        requires
            lo_a <= place,
            forall|j: int|
                0 <= j < row.len() ==> lo_b <= (#[trigger] row[j]).0 && place + row[j].0 + 1 < hi
                    && !irregular(a, row[j].1),
            0 <= hi,
            self.add_row(place, a, row).integral.len() <= hi,
        ensures
            self.add_row(place, a, row).weigh(lo_a + lo_b, hi, vertical) == self.weigh(
                lo_a + lo_b,
                hi,
                vertical,
            ) + times_coordinate(
                a.x() * pow3((place - lo_a) as nat),
                a.y() * pow3((place - lo_a) as nat),
                pairs_weight(row, lo_b, false),
                pairs_weight(row, lo_b, true),
                vertical,
            ),
            self.add_row(place, a, row).integral.len() >= self.integral.len(),
            self.add_row(place, a, row).fractional.len() >= self.fractional.len(),
        decreases row.len(),
    {
        let wa = pow3((place - lo_a) as nat);
        if row.len() == 0 {
            assert(times_coordinate(a.x() * wa, a.y() * wa, 0, 0, vertical) == 0) by (nonlinear_arith);
        } else {
            let rest = row.drop_last();
            let (pb, b) = row.last();
            assert(row.last() == row[row.len() - 1]);
            let wb = pow3((pb - lo_b) as nat);
            let before = self.add_row(place, a, rest);
            assert forall|j: int| 0 <= j < rest.len() implies lo_b <= (#[trigger] rest[j]).0 && place
                + rest[j].0 + 1 < hi && !irregular(a, rest[j].1) by {
                assert(rest[j] == row[j]);
            }
            before.lemma_add_product_lengths(place + pb, a, b);
            self.lemma_add_row_weigh(place, a, rest, lo_a, lo_b, hi, vertical);
            before.lemma_add_product_weigh(place + pb, a, b, lo_a + lo_b, hi, vertical);
            lemma_pow3_adds((place - lo_a) as nat, (pb - lo_b) as nat);
            assert(pow3((place + pb - (lo_a + lo_b)) as nat) == wa * wb);
            lemma_times_scales(a.x(), a.y(), b.x(), b.y(), wa, wb, vertical);
            lemma_times_adds_right(
                a.x() * wa,
                a.y() * wa,
                pairs_weight(rest, lo_b, false),
                pairs_weight(rest, lo_b, true),
                b.x() * wb,
                b.y() * wb,
                vertical,
            );
        }
    }

    /// Adding the product of two digits makes no part of a number shorter.
    pub proof fn lemma_add_product_lengths(
        self,
        place: int,
        a: DualBalancedTernaryDigit,
        b: DualBalancedTernaryDigit,
    )
        ensures
            self.add_product(place, a, b).integral.len() >= self.integral.len(),
            self.add_product(place, a, b).fractional.len() >= self.fractional.len(),
    {
        let (carry, unit) = a.spec_mul(b);
        self.lemma_add_at_lengths(place, unit);
        self.add_at(place, unit).lemma_add_at_lengths(place + 1, carry);
    }

    /// Adding the products of a digit and the digits of a row makes no part
    /// of a number shorter.
    pub proof fn lemma_add_row_lengths(
        self,
        place: int,
        a: DualBalancedTernaryDigit,
        row: Seq<(int, DualBalancedTernaryDigit)>,
    )
        ensures
            self.add_row(place, a, row).integral.len() >= self.integral.len(),
            self.add_row(place, a, row).fractional.len() >= self.fractional.len(),
        decreases row.len(),
    {
        if row.len() > 0 {
            self.lemma_add_row_lengths(place, a, row.drop_last());
            self.add_row(place, a, row.drop_last()).lemma_add_product_lengths(
                place + row.last().0,
                a,
                row.last().1,
            );
        }
    }

    /// Adding the products of the digits of rows and the digits of a row adds
    /// the complex product of what the rows weigh and what the row weighs,
    /// unless the irregular pair is among them.
    #[verifier::rlimit(40)]
    pub proof fn lemma_add_rows_weigh(
        self,
        rows: Seq<(int, DualBalancedTernaryDigit)>,
        row: Seq<(int, DualBalancedTernaryDigit)>,
        lo_a: int,
        lo_b: int,
        hi: int,
        vertical: bool,
    )
        requires
            regular(rows, row),
            forall|i: int| 0 <= i < rows.len() ==> lo_a <= (#[trigger] rows[i]).0,
            forall|j: int| 0 <= j < row.len() ==> lo_b <= (#[trigger] row[j]).0,
            forall|i: int, j: int|
                0 <= i < rows.len() && 0 <= j < row.len() ==> (#[trigger] rows[i]).0 + (
                #[trigger] row[j]).0 + 1 < hi,
            0 <= hi,
            self.add_rows(rows, row).integral.len() <= hi,
        ensures
            self.add_rows(rows, row).weigh(lo_a + lo_b, hi, vertical) == self.weigh(
                lo_a + lo_b,
                hi,
                vertical,
            ) + times_coordinate(
                pairs_weight(rows, lo_a, false),
                pairs_weight(rows, lo_a, true),
                pairs_weight(row, lo_b, false),
                pairs_weight(row, lo_b, true),
                vertical,
            ),
        decreases rows.len(),
    {
        let xb = pairs_weight(row, lo_b, false);
        let yb = pairs_weight(row, lo_b, true);
        if rows.len() == 0 {
            assert(times_coordinate(0, 0, xb, yb, vertical) == 0) by (nonlinear_arith);
        } else {
            let rest = rows.drop_last();
            let (pa, a) = rows.last();
            assert(rows.last() == rows[rows.len() - 1]);
            let wa = pow3((pa - lo_a) as nat);
            let before = self.add_rows(rest, row);
            assert forall|i: int| 0 <= i < rest.len() implies lo_a <= (#[trigger] rest[i]).0 by {
                assert(rest[i] == rows[i]);
            }
            assert forall|i: int, j: int| 0 <= i < rest.len() && 0 <= j < row.len() implies (
            #[trigger] rest[i]).0 + (#[trigger] row[j]).0 + 1 < hi && !irregular(
                rest[i].1,
                row[j].1,
            ) by {
                assert(rest[i] == rows[i]);
            }
            assert(regular(rest, row));
            before.lemma_add_row_lengths(pa, a, row);
            self.lemma_add_rows_weigh(rest, row, lo_a, lo_b, hi, vertical);
            assert forall|j: int| 0 <= j < row.len() implies lo_b <= (#[trigger] row[j]).0 && pa
                + row[j].0 + 1 < hi && !irregular(a, row[j].1) by {
                assert(rows[rows.len() - 1].0 + row[j].0 + 1 < hi);
            }
            before.lemma_add_row_weigh(pa, a, row, lo_a, lo_b, hi, vertical);
            lemma_times_adds_left(
                pairs_weight(rest, lo_a, false),
                pairs_weight(rest, lo_a, true),
                a.x() * wa,
                a.y() * wa,
                xb,
                yb,
                vertical,
            );
        }
    }

    /// Whether a digit stands somewhere in the number.
    pub open spec fn holds(self, d: DualBalancedTernaryDigit) -> bool {
        self.integral.contains(d) || self.fractional.contains(d)
    }

    /// The product stands for the product of the two points as complex
    /// numbers, with `1` as the unit and `3` as the imaginary unit, unless the
    /// left operand holds `8` and the right operand holds `1`. The windows of
    /// the two operands hold their digits, and the window of the product
    /// starts where the two start together and holds the integral digits of
    /// the product.
    #[verifier::rlimit(40)]
    pub proof fn lemma_mul_weigh(
        self,
        other: Self,
        lo_a: int,
        hi_a: int,
        lo_b: int,
        hi_b: int,
        hi: int,
        vertical: bool,
    )
        requires
            !(self.holds(DualBalancedTernaryDigit::Dbt8) && other.holds(
                DualBalancedTernaryDigit::Dbt1,
            )),
            self.within(lo_a, hi_a),
            other.within(lo_b, hi_b),
            hi_a + hi_b <= hi,
            self.mul(other).integral.len() <= hi,
        ensures
            self.mul(other).weigh(lo_a + lo_b, hi, vertical) == times_coordinate(
                self.weigh(lo_a, hi_a, false),
                self.weigh(lo_a, hi_a, true),
                other.weigh(lo_b, hi_b, false),
                other.weigh(lo_b, hi_b, true),
                vertical,
            ),
    {
        let rows = self.pairs();
        let row = other.pairs();
        assert(regular(rows, row)) by {
            assert forall|i: int, j: int| 0 <= i < rows.len() && 0 <= j < row.len() implies !irregular(
                (#[trigger] rows[i]).1,
                (#[trigger] row[j]).1,
            ) by {
                if irregular(rows[i].1, row[j].1) {
                    if i < self.integral.len() {
                        assert(self.integral[i] == DualBalancedTernaryDigit::Dbt8);
                    } else {
                        assert(self.fractional[i - self.integral.len()]
                            == DualBalancedTernaryDigit::Dbt8);
                    }
                    if j < other.integral.len() {
                        assert(other.integral[j] == DualBalancedTernaryDigit::Dbt1);
                    } else {
                        assert(other.fractional[j - other.integral.len()]
                            == DualBalancedTernaryDigit::Dbt1);
                    }
                }
            }
        }
        Self::zero().lemma_add_rows_weigh(rows, row, lo_a, lo_b, hi, vertical);
        Self::lemma_zero_weigh(lo_a + lo_b, hi, vertical);
        self.lemma_pairs_weigh(lo_a, hi_a, false);
        self.lemma_pairs_weigh(lo_a, hi_a, true);
        other.lemma_pairs_weigh(lo_b, hi_b, false);
        other.lemma_pairs_weigh(lo_b, hi_b, true);
    }
}

} // verus!
