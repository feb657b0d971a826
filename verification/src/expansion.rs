//! Numbers from pairs of real coordinates, each given by its digits in base 3.
use crate::digit::DualBalancedTernaryDigit;
use crate::error::ExpansionError;
use crate::model::TernaryView;
use crate::primes::{DualBalancedTernary, DIV_PRECISION};
use crate::value::pow3;
use vstd::prelude::*;

verus! {

/// A real number written in base 3 with the digits 0, 1 and 2. It stands for
/// `whole + 0.fraction` where `negative` is not set, and for
/// `-whole + 0.fraction` where it is: the fraction always counts upwards.
#[derive(Debug)]
pub struct TernaryExpansion {
    /// whether the whole part is to be negated
    pub negative: bool,
    /// the whole part
    pub whole: u64,
    /// the digits behind the point, the one that weighs a third first
    pub fraction: Vec<u8>,
}

/// What an expansion is: its sign, its whole part and the sequence of its
/// digits behind the point.
pub struct ExpansionView {
    pub negative: bool,
    pub whole: nat,
    pub fraction: Seq<u8>,
}

impl View for TernaryExpansion {
    type V = ExpansionView;

    open spec fn view(&self) -> ExpansionView {
        ExpansionView {
            negative: self.negative,
            whole: self.whole as nat,
            fraction: self.fraction@,
        }
    }
}

/// Whether a digit of an expansion is 0, 1 or 2.
pub open spec fn is_trit(t: u8) -> bool {
    t <= 2
}

/// How many digits of a fraction are read: at most `DIV_PRECISION`.
pub open spec fn precision_of(fraction: Seq<u8>) -> int {
    if fraction.len() <= DIV_PRECISION {
        fraction.len() as int
    } else {
        DIV_PRECISION as int
    }
}

impl TernaryView {
    /// The number with a digit 0, 1 or 2 of base 3 added at a place, along the
    /// axis through `3`: 1 is the digit `3` there, and 2, which is 3 - 1, the
    /// digit `3` one place higher and the digit `7` there. Any other digit
    /// adds nothing.
    pub open spec fn add_trit(self, place: int, trit: int) -> Self {
        if trit == 1 {
            self.add_at(place, DualBalancedTernaryDigit::Dbt3)
        } else if trit == 2 {
            self.add_at(place + 1, DualBalancedTernaryDigit::Dbt3).add_at(
                place,
                DualBalancedTernaryDigit::Dbt7,
            )
        } else {
            self
        }
    }

    /// The number with a whole number added whose units stand at a place: its
    /// digits of base 3, from the lowest up.
    pub open spec fn add_whole(self, whole: nat, place: int) -> Self
        decreases whole,
    {
        if whole == 0 {
            self
        } else {
            self.add_trit(place, (whole % 3) as int).add_whole(whole / 3, place + 1)
        }
    }

    /// The number with the digits of a fraction added, the first of them at
    /// the first place behind the radix point.
    pub open spec fn add_fraction(self, fraction: Seq<u8>) -> Self
        decreases fraction.len(),
    {
        if fraction.len() == 0 {
            self
        } else {
            self.add_fraction(fraction.drop_last()).add_trit(
                -(fraction.len() as int),
                fraction.last() as int,
            )
        }
    }

    /// The number with its integral digits negated.
    pub open spec fn negate_integral(self) -> Self {
        TernaryView {
            integral: self.integral.map_values(|d: DualBalancedTernaryDigit| d.spec_negate()),
            ..self
        }
    }

    /// The number on the axis through `3` that an expansion stands for. The
    /// whole part is added to zero and negated where the expansion says so;
    /// then the first `DIV_PRECISION` digits of the fraction are added. A
    /// digit among these that is greater than 2 is refused, the first of them
    /// first.
    pub open spec fn from_expansion(e: ExpansionView) -> Result<Self, ExpansionError> {
        let read = e.fraction.take(precision_of(e.fraction));
        let bad = crate::prefix::prefix_len(read, |t: u8| is_trit(t));
        if bad < read.len() {
            Err(ExpansionError::UnexpectedCarry(read[bad]))
        } else {
            let whole = Self::zero().add_whole(e.whole, 0);
            let signed = if e.negative {
                whole.negate_integral()
            } else {
                whole
            };
            Ok(signed.add_fraction(read))
        }
    }

    /// The number in the plane with the given coordinates: the first along
    /// `3`, the second along `1`. It is the sum of the number that stands for
    /// the first and of the number that stands for the second with its axes
    /// exchanged. The first expansion is looked at first.
    pub open spec fn from_expansions(x: ExpansionView, y: ExpansionView) -> Result<
        Self,
        ExpansionError,
    > {
        match Self::from_expansion(x) {
            Err(e) => Err(e),
            Ok(a) => match Self::from_expansion(y) {
                Err(e) => Err(e),
                Ok(b) => Ok(a.add(b.flip_xy())),
            },
        }
    }
}

/// What the digits of a fraction weigh together in units of `3^lo`: the
/// first weighs a third, and each a third of the one before.
pub open spec fn fraction_weight(fraction: Seq<u8>, lo: int) -> int
    decreases fraction.len(),
{
    if fraction.len() == 0 {
        0
    } else {
        fraction_weight(fraction.drop_last(), lo) + fraction.last() * pow3(
            (-(fraction.len() as int) - lo) as nat,
        )
    }
}

impl ExpansionView {
    /// The real number that the expansion stands for, as far as its fraction
    /// is read, in units of `3^lo`.
    pub open spec fn weight(self, lo: int) -> int {
        let whole = if self.negative {
            -(self.whole as int)
        } else {
            self.whole as int
        };
        whole * pow3((-lo) as nat) + fraction_weight(
            self.fraction.take(precision_of(self.fraction)),
            lo,
        )
    }
}

impl TernaryView {
    /// Adding a digit 0, 1 or 2 of base 3 at a place adds the digit times the
    /// weight of the place to the horizontal coordinate, and nothing to the
    /// vertical one.
    #[verifier::rlimit(40)]
    pub proof fn lemma_add_trit_weigh(self, place: int, trit: int, lo: int, hi: int)
        requires
            0 <= trit <= 2,
            lo <= place,
            0 <= hi,
            self.add_trit(place, trit).integral.len() <= hi,
        ensures
            self.add_trit(place, trit).weigh(lo, hi, false) == self.weigh(lo, hi, false) + trit
                * pow3((place - lo) as nat),
            self.add_trit(place, trit).weigh(lo, hi, true) == self.weigh(lo, hi, true),
            self.add_trit(place, trit).integral.len() >= self.integral.len(),
            self.add_trit(place, trit).fractional.len() >= self.fractional.len(),
            place >= 0 ==> self.add_trit(place, trit).fractional == self.fractional,
            place < 0 ==> self.add_trit(place, trit).fractional.len() <= self.fractional.len()
                || self.add_trit(place, trit).fractional.len() <= -place,
    {
        let weight = pow3((place - lo) as nat);
        let three = DualBalancedTernaryDigit::Dbt3;
        let seven = DualBalancedTernaryDigit::Dbt7;
        if trit == 1 {
            self.lemma_add_at_lengths(place, three);
            if place >= 0 {
                self.lemma_add_at_integral_only(place, three);
            }
            self.lemma_add_at_weigh(place, three, lo, hi, false);
            self.lemma_add_at_weigh(place, three, lo, hi, true);
            assert(1 * weight == weight);
            assert(0 * weight == 0);
        } else if trit == 2 {
            let first = self.add_at(place + 1, three);
            self.lemma_add_at_lengths(place + 1, three);
            first.lemma_add_at_lengths(place, seven);
            if place + 1 >= 0 {
                self.lemma_add_at_integral_only(place + 1, three);
            }
            if place >= 0 {
                first.lemma_add_at_integral_only(place, seven);
            }
            self.lemma_add_at_weigh(place + 1, three, lo, hi, false);
            self.lemma_add_at_weigh(place + 1, three, lo, hi, true);
            first.lemma_add_at_weigh(place, seven, lo, hi, false);
            first.lemma_add_at_weigh(place, seven, lo, hi, true);
            assert(pow3((place + 1 - lo) as nat) == 3 * weight);
            assert(1 * (3 * weight) + (-1) * weight == 2 * weight);
            assert(0 * (3 * weight) == 0);
            assert(0 * weight == 0);
        } else {
            assert(0 * weight == 0);
        }
    }

    /// Adding a digit at a place of the integral part leaves the fractional
    /// part as it is.
    pub proof fn lemma_add_at_integral_only(self, place: int, d: DualBalancedTernaryDigit)
        requires
            place >= 0,
        ensures
            self.add_at(place, d).fractional == self.fractional,
        decreases self.integral.len() - place,
    {
        if d != DualBalancedTernaryDigit::Dbt5 && place < self.integral.len() {
            let (carry, unit) = self.integral[place].spec_add(d);
            let next = TernaryView { integral: self.integral.update(place, unit), ..self };
            next.lemma_add_at_integral_only(place + 1, carry);
        }
    }

    /// Adding a whole number whose units stand at a place adds the number
    /// times the weight of the place to the horizontal coordinate, and nothing
    /// to the vertical one.
    pub proof fn lemma_add_whole_weigh(self, whole: nat, place: int, lo: int, hi: int)
        requires
            lo <= place,
            0 <= place,
            0 <= hi,
            self.add_whole(whole, place).integral.len() <= hi,
        ensures
            self.add_whole(whole, place).weigh(lo, hi, false) == self.weigh(lo, hi, false) + whole
                * pow3((place - lo) as nat),
            self.add_whole(whole, place).weigh(lo, hi, true) == self.weigh(lo, hi, true),
            self.add_whole(whole, place).integral.len() >= self.integral.len(),
            self.add_whole(whole, place).fractional == self.fractional,
        decreases whole,
    {
        let weight = pow3((place - lo) as nat);
        if whole == 0 {
            assert(0 * weight == 0);
        } else {
            let trit = (whole % 3) as int;
            let rest = whole / 3;
            let next = self.add_trit(place, trit);
            next.lemma_add_whole_lengths(rest, place + 1);
            self.lemma_add_trit_weigh(place, trit, lo, hi);
            next.lemma_add_whole_weigh(rest, place + 1, lo, hi);
            assert(pow3((place + 1 - lo) as nat) == 3 * weight);
            assert(trit * weight + rest * (3 * weight) == whole * weight) by (nonlinear_arith)
                requires
                    whole == 3 * rest + trit,
            ;
        }
    }

    /// Adding a whole number makes the integral part no shorter.
    pub proof fn lemma_add_whole_lengths(self, whole: nat, place: int)
        requires
            0 <= place,
        ensures
            self.add_whole(whole, place).integral.len() >= self.integral.len(),
        decreases whole,
    {
        if whole != 0 {
            let trit = (whole % 3) as int;
            let next = self.add_trit(place, trit);
            if trit == 1 {
                self.lemma_add_at_lengths(place, DualBalancedTernaryDigit::Dbt3);
            } else if trit == 2 {
                self.lemma_add_at_lengths(place + 1, DualBalancedTernaryDigit::Dbt3);
                self.add_at(place + 1, DualBalancedTernaryDigit::Dbt3).lemma_add_at_lengths(
                    place,
                    DualBalancedTernaryDigit::Dbt7,
                );
            }
            next.lemma_add_whole_lengths(whole / 3, place + 1);
        }
    }

    /// Adding the digits of a fraction adds what they weigh to the horizontal
    /// coordinate, and nothing to the vertical one.
    pub proof fn lemma_add_fraction_weigh(self, fraction: Seq<u8>, lo: int, hi: int)
        requires
            forall|k: int| 0 <= k < fraction.len() ==> is_trit(#[trigger] fraction[k]),
            lo <= -fraction.len(),
            0 <= hi,
            self.add_fraction(fraction).integral.len() <= hi,
        ensures
            self.add_fraction(fraction).weigh(lo, hi, false) == self.weigh(lo, hi, false)
                + fraction_weight(fraction, lo),
            self.add_fraction(fraction).weigh(lo, hi, true) == self.weigh(lo, hi, true),
            self.add_fraction(fraction).integral.len() >= self.integral.len(),
            self.add_fraction(fraction).fractional.len() <= self.fractional.len()
                || self.add_fraction(fraction).fractional.len() <= fraction.len(),
        decreases fraction.len(),
    {
        if fraction.len() > 0 {
            let rest = fraction.drop_last();
            let before = self.add_fraction(rest);
            let place = -(fraction.len() as int);
            let trit = fraction.last() as int;
            assert(fraction.last() == fraction[fraction.len() - 1]);
            assert forall|k: int| 0 <= k < rest.len() implies is_trit(#[trigger] rest[k]) by {
                assert(rest[k] == fraction[k]);
            }
            before.lemma_add_trit_lengths(place, trit);
            self.lemma_add_fraction_weigh(rest, lo, hi);
            before.lemma_add_trit_weigh(place, trit, lo, hi);
        }
    }

    /// Adding a digit of base 3 makes the integral part no shorter.
    pub proof fn lemma_add_trit_lengths(self, place: int, trit: int)
        ensures
            self.add_trit(place, trit).integral.len() >= self.integral.len(),
    {
        if trit == 1 {
            self.lemma_add_at_lengths(place, DualBalancedTernaryDigit::Dbt3);
        } else if trit == 2 {
            self.lemma_add_at_lengths(place + 1, DualBalancedTernaryDigit::Dbt3);
            self.add_at(place + 1, DualBalancedTernaryDigit::Dbt3).lemma_add_at_lengths(
                place,
                DualBalancedTernaryDigit::Dbt7,
            );
        }
    }

    /// The number made from an expansion stands for the real number that the
    /// expansion stands for, on the horizontal axis: over every window that
    /// holds its digits, it weighs that number horizontally and nothing
    /// vertically.
    #[verifier::rlimit(40)]
    pub proof fn lemma_from_expansion_weigh(e: ExpansionView, lo: int, hi: int)
        requires
            Self::from_expansion(e) is Ok,
            Self::from_expansion(e)->Ok_0.within(lo, hi),
            lo <= -precision_of(e.fraction),
        ensures
            Self::from_expansion(e)->Ok_0.weigh(lo, hi, false) == e.weight(lo),
            Self::from_expansion(e)->Ok_0.weigh(lo, hi, true) == 0,
    {
        let read = e.fraction.take(precision_of(e.fraction));
        let keep = |t: u8| is_trit(t);
        crate::prefix::lemma_prefix_len(read, keep);
        let whole = Self::zero().add_whole(e.whole, 0);
        let signed = if e.negative {
            whole.negate_integral()
        } else {
            whole
        };
        let result = signed.add_fraction(read);
        assert(result == Self::from_expansion(e)->Ok_0);
        signed.lemma_add_fraction_weigh(read, lo, hi);
        assert(signed.integral.len() == whole.integral.len());
        Self::zero().lemma_add_whole_weigh(e.whole, 0, lo, hi);
        Self::lemma_zero_weigh(lo, hi, false);
        Self::lemma_zero_weigh(lo, hi, true);
        if e.negative {
            assert(whole.fractional == Seq::<DualBalancedTernaryDigit>::empty());
            assert(whole.negate().fractional =~= whole.fractional);
            assert(whole.negate_integral() == whole.negate());
            whole.lemma_negate_weigh(lo, hi, false);
            whole.lemma_negate_weigh(lo, hi, true);
            assert(-(e.whole * pow3((0 - lo) as nat)) == (-(e.whole as int)) * pow3((-lo) as nat))
                by (nonlinear_arith);
        }
    }
}

impl TernaryView {
    /// The number made from two expansions stands for the point whose
    /// horizontal coordinate is the real number that the first stands for and
    /// whose vertical coordinate is the one that the second stands for.
    pub proof fn lemma_from_expansions_weigh(x: ExpansionView, y: ExpansionView, lo: int, hi: int)
        requires
            Self::from_expansions(x, y) is Ok,
            Self::from_expansion(x)->Ok_0.within(lo, hi),
            Self::from_expansion(y)->Ok_0.within(lo, hi),
            Self::from_expansions(x, y)->Ok_0.within(lo, hi),
            lo <= -precision_of(x.fraction),
            lo <= -precision_of(y.fraction),
        ensures
            Self::from_expansions(x, y)->Ok_0.weigh(lo, hi, false) == x.weight(lo),
            Self::from_expansions(x, y)->Ok_0.weigh(lo, hi, true) == y.weight(lo),
    {
        let a = Self::from_expansion(x)->Ok_0;
        let b = Self::from_expansion(y)->Ok_0;
        Self::lemma_from_expansion_weigh(x, lo, hi);
        Self::lemma_from_expansion_weigh(y, lo, hi);
        b.lemma_flip_xy_weigh(lo, hi);
        a.lemma_add_weigh(b.flip_xy(), lo, hi, false);
        a.lemma_add_weigh(b.flip_xy(), lo, hi, true);
    }
}

impl DualBalancedTernary {
    /// Adds a digit 0, 1 or 2 of base 3 at a place, along the axis through
    /// `3`.
    fn accumulate_trit(&mut self, place: i128, trit: u8)
        requires
            place < i128::MAX,
        ensures
            final(self)@ == old(self)@.add_trit(place as int, trit as int),
    {
        if trit == 1 {
            self.accumulate(place, DualBalancedTernaryDigit::Dbt3);
        } else if trit == 2 {
            self.accumulate(place + 1, DualBalancedTernaryDigit::Dbt3);
            self.accumulate(place, DualBalancedTernaryDigit::Dbt7);
        }
    }

    /// The number on the axis through `3` that an expansion stands for, with
    /// at most `DIV_PRECISION` fractional digits read. A digit greater than 2
    /// among those that are read is refused.
    pub fn from_expansion(e: &TernaryExpansion) -> (r: Result<DualBalancedTernary, ExpansionError>)
        ensures
            match r {
                Ok(x) => TernaryView::from_expansion(e@) == Ok::<TernaryView, ExpansionError>(x@),
                Err(err) => TernaryView::from_expansion(e@) == Err::<TernaryView, ExpansionError>(
                    err,
                ),
            },
    {
        let precision = if e.fraction.len() <= DIV_PRECISION {
            e.fraction.len()
        } else {
            DIV_PRECISION
        };
        let ghost read = e.fraction@.take(precision as int);
        let ghost keep = |t: u8| is_trit(t);
        let mut k: usize = 0;
        while k < precision
            invariant
                k <= precision <= e.fraction.len(),
                precision == precision_of(e.fraction@),
                read == e.fraction@.take(precision as int),
                keep == (|t: u8| is_trit(t)),
                forall|i: int| 0 <= i < k ==> keep(#[trigger] read[i]),
            decreases precision - k,
        {
            if e.fraction[k] > 2 {
                proof {
                    assert(read[k as int] == e.fraction@[k as int]);
                    crate::prefix::lemma_prefix_len_is(read, keep, k as int);
                }
                return Err(ExpansionError::UnexpectedCarry(e.fraction[k]));
            }
            assert(read[k as int] == e.fraction@[k as int]);
            k += 1;
        }
        proof {
            crate::prefix::lemma_prefix_len_is(read, keep, precision as int);
        }
        let mut result = DualBalancedTernary::zero();
        let mut integral_part: u64 = e.whole;
        let mut idx: i128 = 0;
        while integral_part > 0
            invariant
                0 <= idx,
                idx + integral_part <= u64::MAX,
                result@.add_whole(integral_part as nat, idx as int) == TernaryView::zero().add_whole(
                    e.whole as nat,
                    0,
                ),
            decreases integral_part,
        {
            let left = integral_part % 3;
            result.accumulate_trit(idx, left as u8);
            integral_part = integral_part / 3;
            idx = idx + 1;
        }
        if e.negative {
            let mut i: usize = 0;
            let ghost before = result@;
            while i < result.integral.len()
                invariant
                    i <= result.integral.len(),
                    result.integral@.len() == before.integral.len(),
                    result.fractional@ == before.fractional,
                    forall|m: int| 0 <= m < i ==> result.integral@[m] == before.integral[m].spec_negate(),
                    forall|m: int|
                        i <= m < result.integral.len() ==> result.integral@[m] == before.integral[m],
                decreases result.integral.len() - i,
            {
                let d = result.integral[i].negate();
                result.integral[i] = d;
                i += 1;
            }
            assert(result@.integral =~= before.negate_integral().integral);
        }
        let ghost signed = result@;
        let mut j: usize = 0;
        while j < precision
            invariant
                j <= precision <= e.fraction.len(),
                read == e.fraction@.take(precision as int),
                result@ == signed.add_fraction(read.take(j as int)),
            decreases precision - j,
        {
            assert(read.take(j + 1).drop_last() == read.take(j as int));
            result.accumulate_trit(-1 - (j as i128), e.fraction[j]);
            j += 1;
        }
        assert(read.take(precision as int) == read);
        Ok(result)
    }

    /// The number in the plane with the given coordinates, the first along
    /// `3` and the second along `1`.
    pub fn from_expansions(x: &TernaryExpansion, y: &TernaryExpansion) -> (r: Result<
        DualBalancedTernary,
        ExpansionError,
    >)
        ensures
            match r {
                Ok(v) => TernaryView::from_expansions(x@, y@) == Ok::<TernaryView, ExpansionError>(
                    v@,
                ),
                Err(err) => TernaryView::from_expansions(x@, y@) == Err::<
                    TernaryView,
                    ExpansionError,
                >(err),
            },
    {
        let a = match DualBalancedTernary::from_expansion(x) {
            Ok(a) => a,
            Err(e) => {
                return Err(e);
            },
        };
        let b = match DualBalancedTernary::from_expansion(y) {
            Ok(b) => b,
            Err(e) => {
                return Err(e);
            },
        };
        Ok(a.add(b.flip_xy()))
    }
}

} // verus!
