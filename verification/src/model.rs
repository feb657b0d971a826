//! The mathematical model of a number: two sequences of digits, and the
//! operations on them that the executable code is held to.
use crate::digit::DualBalancedTernaryDigit;
use crate::prefix::{lemma_prefix_len, prefix_len};
use vstd::prelude::*;

verus! {

/// What a number is: the digits before the radix point, units first, and the
/// digits after it, nearest the point first. The digit at place `p >= 0` is
/// `integral[p]` and weighs `3^p`; the digit at place `p < 0` is
/// `fractional[-1 - p]`.
pub struct TernaryView {
    pub integral: Seq<DualBalancedTernaryDigit>,
    pub fractional: Seq<DualBalancedTernaryDigit>,
}

/// The sequence without the centre digits at its end.
pub open spec fn strip_tail(s: Seq<DualBalancedTernaryDigit>) -> Seq<DualBalancedTernaryDigit>
    decreases s.len(),
{
    if s.len() > 0 && s.last() == DualBalancedTernaryDigit::Dbt5 {
        strip_tail(s.drop_last())
    } else {
        s
    }
}

/// Whether the sequence is empty or ends in a digit other than the centre.
pub open spec fn no_empty_tail(s: Seq<DualBalancedTernaryDigit>) -> bool {
    s.len() == 0 || s.last() != DualBalancedTernaryDigit::Dbt5
}

/// Whether every digit of the sequence is the centre.
pub open spec fn all_center(s: Seq<DualBalancedTernaryDigit>) -> bool {
    forall|i: int| 0 <= i < s.len() ==> s[i] == DualBalancedTernaryDigit::Dbt5
}

/// Whether every digit of the sequence lies on the axis through `1` and `9`,
/// that is, is `1`, `5` or `9`.
pub open spec fn all_linear(s: Seq<DualBalancedTernaryDigit>) -> bool {
    forall|i: int| 0 <= i < s.len() ==> s[i].x() == 0
}

/// How many centre digits the sequence starts with.
pub open spec fn leading_centers(s: Seq<DualBalancedTernaryDigit>) -> int {
    prefix_len(s, |d: DualBalancedTernaryDigit| d == DualBalancedTernaryDigit::Dbt5)
}

/// The sequence followed by as many centre digits as it takes to reach the
/// given length; the sequence itself where it is that long already.
pub open spec fn pad_to(s: Seq<DualBalancedTernaryDigit>, len: int) -> Seq<
    DualBalancedTernaryDigit,
> {
    if len <= s.len() {
        s
    } else {
        s + Seq::new((len - s.len()) as nat, |i: int| DualBalancedTernaryDigit::Dbt5)
    }
}

impl TernaryView {
    /// The number without digits.
    pub open spec fn zero() -> Self {
        TernaryView { integral: Seq::empty(), fractional: Seq::empty() }
    }

    /// The digit at a place: the centre where the number has none.
    pub open spec fn digit_at(self, place: int) -> DualBalancedTernaryDigit {
        if 0 <= place < self.integral.len() {
            self.integral[place]
        } else if place < 0 && -1 - place < self.fractional.len() {
            self.fractional[-1 - place]
        } else {
            DualBalancedTernaryDigit::Dbt5
        }
    }

    /// The canonical form: no centre digit at the high end of the integral
    /// part nor at the deep end of the fractional part.
    pub open spec fn strip_empty_tails(self) -> Self {
        TernaryView {
            integral: strip_tail(self.integral),
            fractional: strip_tail(self.fractional),
        }
    }

    /// Whether the number is in canonical form.
    pub open spec fn is_canonical(self) -> bool {
        no_empty_tail(self.integral) && no_empty_tail(self.fractional)
    }

    /// Whether two numbers have the same canonical form, which is what it
    /// means for them to be equal.
    pub open spec fn same_value(self, other: Self) -> bool {
        self.strip_empty_tails() == other.strip_empty_tails()
    }

    /// Whether the number is zero: every digit is the centre.
    pub open spec fn is_zero(self) -> bool {
        all_center(self.integral) && all_center(self.fractional)
    }

    /// Whether every place of the number fits in an `i64`.
    pub open spec fn places_fit(self) -> bool {
        self.integral.len() <= 0x8000_0000_0000_0000 && self.fractional.len()
            <= 0x8000_0000_0000_0000
    }

    /// Whether every digit is `1`, `5` or `9`, so that the number lies on the
    /// axis through these.
    pub open spec fn is_linear_ternary(self) -> bool {
        all_linear(self.integral) && all_linear(self.fractional)
    }

    /// The leading digit and its place: the digit other than the centre at the
    /// highest place. Zero has none, and `(5, 0)` stands for it.
    pub open spec fn first_digit(self) -> (DualBalancedTernaryDigit, int) {
        let c = self.strip_empty_tails();
        if c.integral.len() > 0 {
            (c.integral.last(), c.integral.len() - 1)
        } else if c.fractional.len() == 0 {
            (DualBalancedTernaryDigit::Dbt5, 0)
        } else {
            let deep = leading_centers(c.fractional);
            (c.fractional[deep], -1 - deep)
        }
    }

    /// The number with a map applied to each of its digits.
    pub open spec fn map_digits(
        self,
        f: spec_fn(DualBalancedTernaryDigit) -> DualBalancedTernaryDigit,
    ) -> Self {
        TernaryView {
            integral: self.integral.map_values(f),
            fractional: self.fractional.map_values(f),
        }
    }

    /// The additive inverse: every digit negated.
    pub open spec fn negate(self) -> Self {
        self.map_digits(|d: DualBalancedTernaryDigit| d.spec_negate())
    }

    /// The conjugate: every digit mirrored left to right, which keeps the
    /// part along `1` and negates the part along `3`.
    pub open spec fn conjugate(self) -> Self {
        self.map_digits(|d: DualBalancedTernaryDigit| d.spec_flip_left_right())
    }

    /// The number turned a quarter clockwise: every digit turned so.
    pub open spec fn rotate3(self) -> Self {
        self.map_digits(|d: DualBalancedTernaryDigit| d.spec_rotate3())
    }

    /// The number turned a quarter anti-clockwise: every digit turned so.
    pub open spec fn rotate7(self) -> Self {
        self.map_digits(|d: DualBalancedTernaryDigit| d.spec_rotate7())
    }

    /// The number with its two axes exchanged: every digit mirrored across the
    /// diagonal.
    pub open spec fn flip_xy(self) -> Self {
        self.map_digits(|d: DualBalancedTernaryDigit| d.spec_flip_xy())
    }

    /// The part along `1` and the part along `3`, in this order, both in
    /// canonical form.
    pub open spec fn split_yx(self) -> (Self, Self) {
        (
            self.map_digits(|d: DualBalancedTernaryDigit| d.spec_split_yx().0).strip_empty_tails(),
            self.map_digits(|d: DualBalancedTernaryDigit| d.spec_split_yx().1).strip_empty_tails(),
        )
    }

    /// The number with a digit added at a place. The sum of the digit there
    /// and the new one stays, and its carry is added one place higher in the
    /// same way. A place beyond the digits is reached by filling up with
    /// centre digits. Adding the centre changes nothing.
    pub open spec fn add_at(self, place: int, d: DualBalancedTernaryDigit) -> Self
        decreases self.integral.len() - place,
    {
        if d == DualBalancedTernaryDigit::Dbt5 {
            self
        } else if place >= 0 {
            if place >= self.integral.len() {
                TernaryView { integral: pad_to(self.integral, place).push(d), ..self }
            } else {
                let (carry, unit) = self.integral[place].spec_add(d);
                TernaryView { integral: self.integral.update(place, unit), ..self }.add_at(
                    place + 1,
                    carry,
                )
            }
        } else {
            let deep = -1 - place;
            if deep >= self.fractional.len() {
                TernaryView { fractional: pad_to(self.fractional, deep).push(d), ..self }
            } else {
                let (carry, unit) = self.fractional[deep].spec_add(d);
                TernaryView { fractional: self.fractional.update(deep, unit), ..self }.add_at(
                    place + 1,
                    carry,
                )
            }
        }
    }

    /// The number without its fractional part.
    pub open spec fn round(self) -> Self {
        TernaryView { fractional: Seq::empty(), ..self }
    }

    /// The number with its first `n` fractional digits only, or with all of
    /// them where it has no more. Nothing is rounded up or down.
    pub open spec fn round_n(self, n: nat) -> Self {
        if n >= self.fractional.len() {
            self
        } else {
            TernaryView { fractional: self.fractional.take(n as int), ..self }
        }
    }

    /// The number with its radix point moved `n` places to the right, or,
    /// for a negative `n`, `-n` places to the left. The digits next to the
    /// point pass one by one into the other part; where there are not enough
    /// of them, centre digits pass.
    pub open spec fn move_by(self, n: int) -> Self {
        if n >= 0 {
            TernaryView {
                integral: pad_to(self.fractional, n).take(n).reverse() + self.integral,
                fractional: if n <= self.fractional.len() {
                    self.fractional.skip(n)
                } else {
                    Seq::empty()
                },
            }
        } else {
            TernaryView {
                integral: if -n <= self.integral.len() {
                    self.integral.skip(-n)
                } else {
                    Seq::empty()
                },
                fractional: pad_to(self.integral, -n).take(-n).reverse() + self.fractional,
            }
        }
    }

    /// Every digit with its place, as it is read: the integral digits from
    /// the highest place down, then the fractional digits from the radix point
    /// down.
    pub open spec fn digits_high_first(self) -> Seq<(int, DualBalancedTernaryDigit)> {
        Seq::new(
            self.integral.len() + self.fractional.len(),
            |k: int|
                if k < self.integral.len() {
                    (self.integral.len() - 1 - k, self.integral[self.integral.len() - 1 - k])
                } else {
                    (
                        -1 - (k - self.integral.len()),
                        self.fractional[k - self.integral.len()],
                    )
                },
        )
    }

    /// Every digit with its place: the integral digits from the units
    /// upwards, then the fractional digits from the radix point downwards.
    pub open spec fn pairs(self) -> Seq<(int, DualBalancedTernaryDigit)> {
        Seq::new(
            self.integral.len() + self.fractional.len(),
            |k: int|
                if k < self.integral.len() {
                    (k, self.integral[k])
                } else {
                    (
                        -1 - (k - self.integral.len()),
                        self.fractional[k - self.integral.len()],
                    )
                },
        )
    }

    /// The number with each of the digits added at its place, one after the
    /// other.
    pub open spec fn add_pairs(self, pairs: Seq<(int, DualBalancedTernaryDigit)>) -> Self
        decreases pairs.len(),
    {
        if pairs.len() == 0 {
            self
        } else {
            self.add_pairs(pairs.drop_last()).add_at(pairs.last().0, pairs.last().1)
        }
    }

    /// The sum: the digits of the right operand added to the left operand, each
    /// at its place, and the result brought into canonical form.
    pub open spec fn add(self, other: Self) -> Self {
        self.add_pairs(other.pairs()).strip_empty_tails()
    }

    /// The difference: the sum with the additive inverse.
    pub open spec fn sub(self, other: Self) -> Self {
        self.add(other.negate())
    }

    /// The number with the product of two digits added at a place: the digit
    /// of the product there, and its carry, unless it is the centre, one place
    /// higher.
    pub open spec fn add_product(
        self,
        place: int,
        a: DualBalancedTernaryDigit,
        b: DualBalancedTernaryDigit,
    ) -> Self {
        let (carry, unit) = a.spec_mul(b);
        self.add_at(place, unit).add_at(place + 1, carry)
    }

    /// The number with the products of one digit and each digit of a row
    /// added, each at the sum of the two places.
    pub open spec fn add_row(
        self,
        place: int,
        a: DualBalancedTernaryDigit,
        row: Seq<(int, DualBalancedTernaryDigit)>,
    ) -> Self
        decreases row.len(),
    {
        if row.len() == 0 {
            self
        } else {
            self.add_row(place, a, row.drop_last()).add_product(
                place + row.last().0,
                a,
                row.last().1,
            )
        }
    }

    /// The number with the products of each digit of the rows and each digit
    /// of the row added, rows first.
    pub open spec fn add_rows(
        self,
        rows: Seq<(int, DualBalancedTernaryDigit)>,
        row: Seq<(int, DualBalancedTernaryDigit)>,
    ) -> Self
        decreases rows.len(),
    {
        if rows.len() == 0 {
            self
        } else {
            self.add_rows(rows.drop_last(), row).add_row(rows.last().0, rows.last().1, row)
        }
    }

    /// The product: the products of every digit of the left operand and every
    /// digit of the right operand, each added to zero at the sum of the two
    /// places. The result need not be in canonical form.
    pub open spec fn mul(self, other: Self) -> Self {
        Self::zero().add_rows(self.pairs(), other.pairs())
    }
}

/// A place and a digit as the model has them: the place as an integer without
/// bounds.
pub open spec fn pair_view(pair: (i64, DualBalancedTernaryDigit)) -> (
    int,
    DualBalancedTernaryDigit,
) {
    (pair.0 as int, pair.1)
}

/// Places and digits as the model has them.
pub open spec fn pairs_view(pairs: Seq<(i64, DualBalancedTernaryDigit)>) -> Seq<
    (int, DualBalancedTernaryDigit),
> {
    pairs.map_values(|p: (i64, DualBalancedTernaryDigit)| pair_view(p))
}

/// The digits that a sequence starts with are centre digits as far as
/// `leading_centers` counts; the next one, if there is one, is not.
pub proof fn lemma_leading_centers(s: Seq<DualBalancedTernaryDigit>)
    ensures
        0 <= leading_centers(s) <= s.len(),
        forall|i: int| 0 <= i < leading_centers(s) ==> s[i] == DualBalancedTernaryDigit::Dbt5,
        leading_centers(s) < s.len() ==> s[leading_centers(s)] != DualBalancedTernaryDigit::Dbt5,
{
    lemma_prefix_len(s, |d: DualBalancedTernaryDigit| d == DualBalancedTernaryDigit::Dbt5);
}

/// Stripping leaves a sequence that has no centre digit at its end and is a
/// prefix of the given one, which goes on with centre digits only.
pub proof fn lemma_strip_tail(s: Seq<DualBalancedTernaryDigit>)
    ensures
        no_empty_tail(strip_tail(s)),
        strip_tail(s).len() <= s.len(),
        strip_tail(s) == s.take(strip_tail(s).len() as int),
        forall|i: int| strip_tail(s).len() <= i < s.len() ==> s[i] == DualBalancedTernaryDigit::Dbt5,
        no_empty_tail(s) ==> strip_tail(s) == s,
    decreases s.len(),
{
    if s.len() > 0 && s.last() == DualBalancedTernaryDigit::Dbt5 {
        lemma_strip_tail(s.drop_last());
        let t = strip_tail(s.drop_last());
        assert(t == s.take(t.len() as int)) by {
            assert(s.drop_last().take(t.len() as int) == s.take(t.len() as int));
        }
        assert forall|i: int| t.len() <= i < s.len() implies s[i]
            == DualBalancedTernaryDigit::Dbt5 by {
            if i < s.len() - 1 {
                assert(s.drop_last()[i] == s[i]);
            }
        }
    } else {
        assert(s.take(s.len() as int) == s);
    }
}

/// A sequence of centre digits only strips to nothing, and only such a
/// sequence does.
pub proof fn lemma_strip_tail_empty(s: Seq<DualBalancedTernaryDigit>)
    ensures
        all_center(s) <==> strip_tail(s).len() == 0,
    decreases s.len(),
{
    if s.len() > 0 && s.last() == DualBalancedTernaryDigit::Dbt5 {
        lemma_strip_tail_empty(s.drop_last());
        if all_center(s.drop_last()) {
            assert forall|i: int| 0 <= i < s.len() implies s[i]
                == DualBalancedTernaryDigit::Dbt5 by {
                if i < s.len() - 1 {
                    assert(s.drop_last()[i] == s[i]);
                }
            }
        }
        if all_center(s) {
            assert forall|i: int| 0 <= i < s.drop_last().len() implies s.drop_last()[i]
                == DualBalancedTernaryDigit::Dbt5 by {
                assert(s.drop_last()[i] == s[i]);
            }
        }
    } else if s.len() > 0 {
        assert(s[s.len() - 1] != DualBalancedTernaryDigit::Dbt5);
    }
}

} // verus!
