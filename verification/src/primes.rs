//! Numbers: two vectors of digits around a radix point.
use crate::digit::DualBalancedTernaryDigit;
use crate::model::{
    all_linear, leading_centers, lemma_leading_centers, lemma_strip_tail, lemma_strip_tail_empty,
    pad_to, pairs_view, strip_tail, TernaryView,
};
use vstd::prelude::*;

verus! {

/// How many digits a quotient gets after the radix point where the division
/// does not come out even.
pub const DIV_PRECISION: usize = 10;

/// A dual balanced ternary number of limited accuracy. It is written
/// `&<integral>.<fractional>`; `5` is the zero digit.
///
/// Centre digits at the high end of `integral` and at the deep end of
/// `fractional` do not change the value: two numbers are equal when they agree
/// once these are stripped.
#[derive(Debug)]
pub struct DualBalancedTernary {
    /// integral part, the digit of the units first
    pub integral: Vec<DualBalancedTernaryDigit>,
    /// fractional part, the digit next to the radix point first
    pub fractional: Vec<DualBalancedTernaryDigit>,
}

impl View for DualBalancedTernary {
    type V = TernaryView;

    open spec fn view(&self) -> TernaryView {
        TernaryView { integral: self.integral@, fractional: self.fractional@ }
    }
}

impl PartialEq for DualBalancedTernary {
    /// Two numbers are equal when their canonical forms are the same.
    fn eq(&self, other: &Self) -> (r: bool) {
        let a2 = self.strip_empty_tails();
        let b2 = other.strip_empty_tails();
        let r = same_digits(&a2.integral, &b2.integral) && same_digits(
            &a2.fractional,
            &b2.fractional,
        );
        r
    }
}

impl vstd::std_specs::cmp::PartialEqSpecImpl for DualBalancedTernary {
    open spec fn obeys_eq_spec() -> bool {
        true
    }

    open spec fn eq_spec(&self, other: &Self) -> bool {
        self@.same_value(other@)
    }
}

impl Eq for DualBalancedTernary {

}

impl core::hash::Hash for DualBalancedTernary {
    /// Feeds the canonical form to the hasher, so that equal numbers hash
    /// alike: the codes of the integral digits, a zero byte, and the codes of
    /// the fractional digits.
    fn hash<H: core::hash::Hasher>(&self, state: &mut H) {
        let a2 = self.strip_empty_tails();
        let mut i: usize = 0;
        while i < a2.integral.len()
            invariant
                i <= a2.integral.len(),
            decreases a2.integral.len() - i,
        {
            write_byte(state, a2.integral[i].to_u8());
            i += 1;
        }
        write_byte(state, 0);
        let mut j: usize = 0;
        while j < a2.fractional.len()
            invariant
                j <= a2.fractional.len(),
            decreases a2.fractional.len() - j,
        {
            write_byte(state, a2.fractional[j].to_u8());
            j += 1;
        }
    }
}

/// Feeds one byte to a hasher, by `core::hash::Hasher::write_u8`. Nothing is
/// claimed of the state the hasher is left in.
#[verifier::external_body]
fn write_byte<H: core::hash::Hasher>(state: &mut H, byte: u8) {
    state.write_u8(byte);
}

/// Whether two vectors hold the same digits.
fn same_digits(a: &Vec<DualBalancedTernaryDigit>, b: &Vec<DualBalancedTernaryDigit>) -> (r: bool)
    ensures
        r == (a@ == b@),
{
    if a.len() != b.len() {
        return false;
    }
    let mut i: usize = 0;
    while i < a.len()
        invariant
            i <= a.len(),
            a.len() == b.len(),
            a@.take(i as int) == b@.take(i as int),
        decreases a.len() - i,
    {
        if a[i] != b[i] {
            return false;
        }
        i += 1;
        assert(a@.take(i as int) =~= a@.take(i - 1).push(a@[i - 1]));
        assert(b@.take(i as int) =~= b@.take(i - 1).push(b@[i - 1]));
    }
    assert(a@.take(a.len() as int) == a@);
    assert(b@.take(b.len() as int) == b@);
    true
}

impl Clone for DualBalancedTernary {
    fn clone(&self) -> (r: Self)
        ensures
            r@ == self@,
    {
        DualBalancedTernary {
            integral: copy_digits(&self.integral),
            fractional: copy_digits(&self.fractional),
        }
    }
}

/// A vector with the same digits.
fn copy_digits(digits: &Vec<DualBalancedTernaryDigit>) -> (r: Vec<DualBalancedTernaryDigit>)
    ensures
        r@ == digits@,
{
    let mut r: Vec<DualBalancedTernaryDigit> = Vec::new();
    let mut i: usize = 0;
    while i < digits.len()
        invariant
            i <= digits.len(),
            r@ == digits@.take(i as int),
        decreases digits.len() - i,
    {
        r.push(digits[i]);
        i += 1;
    }
    assert(digits@.take(digits.len() as int) == digits@);
    r
}

/// Drops the centre digits at the end of a vector.
fn strip_digits(digits: &mut Vec<DualBalancedTernaryDigit>)
    ensures
        final(digits)@ == strip_tail(old(digits)@),
{
    while digits.len() > 0 && digits[digits.len() - 1] == DualBalancedTernaryDigit::Dbt5
        invariant
            strip_tail(digits@) == strip_tail(old(digits)@),
        decreases digits.len(),
    {
        let ghost before = digits@;
        digits.pop();
        assert(digits@ == before.drop_last());
    }
}

/// Fills a vector up with centre digits to the given length and puts a digit
/// behind them.
fn extend_with(digits: &mut Vec<DualBalancedTernaryDigit>, len: i128, d: DualBalancedTernaryDigit)
    requires
        old(digits)@.len() <= len,
    ensures
        final(digits)@ == pad_to(old(digits)@, len as int).push(d),
{
    while (digits.len() as i128) < len
        invariant
            old(digits)@.len() <= digits@.len() <= len,
            digits@ == pad_to(old(digits)@, digits@.len() as int),
        decreases len - digits@.len(),
    {
        let ghost before = digits@;
        digits.push(DualBalancedTernaryDigit::Dbt5);
        assert(digits@ =~= pad_to(old(digits)@, before.len() as int + 1));
    }
    digits.push(d);
}

/// The vector of the images of the digits under a map.
fn map_digits<F: Fn(DualBalancedTernaryDigit) -> DualBalancedTernaryDigit>(
    digits: &Vec<DualBalancedTernaryDigit>,
    f: F,
    Ghost(image): Ghost<spec_fn(DualBalancedTernaryDigit) -> DualBalancedTernaryDigit>,
) -> (r: Vec<DualBalancedTernaryDigit>)
    requires
        forall|d: DualBalancedTernaryDigit| call_requires(f, (d,)),
        forall|d: DualBalancedTernaryDigit, y: DualBalancedTernaryDigit|
            call_ensures(f, (d,), y) ==> y == image(d),
    ensures
        r@ == digits@.map_values(image),
{
    let mut r: Vec<DualBalancedTernaryDigit> = Vec::new();
    let mut i: usize = 0;
    while i < digits.len()
        invariant
            i <= digits.len(),
            r@ == digits@.take(i as int).map_values(image),
            forall|d: DualBalancedTernaryDigit| call_requires(f, (d,)),
            forall|d: DualBalancedTernaryDigit, y: DualBalancedTernaryDigit|
                call_ensures(f, (d,), y) ==> y == image(d),
        decreases digits.len() - i,
    {
        r.push(f(digits[i]));
        i += 1;
        assert(r@ =~= digits@.take(i as int).map_values(image));
    }
    assert(digits@.take(digits.len() as int) == digits@);
    r
}

/// Whether every digit of the vector is `1`, `5` or `9`.
fn digits_linear(digits: &Vec<DualBalancedTernaryDigit>) -> (r: bool)
    ensures
        r == all_linear(digits@),
{
    let mut i: usize = 0;
    while i < digits.len()
        invariant
            i <= digits.len(),
            forall|k: int| 0 <= k < i ==> digits@[k].x() == 0,
        decreases digits.len() - i,
    {
        let item = digits[i];
        if item != DualBalancedTernaryDigit::Dbt1 && item != DualBalancedTernaryDigit::Dbt5 && item
            != DualBalancedTernaryDigit::Dbt9 {
            return false;
        }
        i += 1;
    }
    true
}

/// Moves the first `n` digits of one part over to the other part, in front of
/// its digits and in the opposite order, with centre digits where the first
/// part has fewer. Returns the part that took them and what is left of the
/// part that gave them.
fn shift_digits(
    from: &Vec<DualBalancedTernaryDigit>,
    to: &Vec<DualBalancedTernaryDigit>,
    n: i128,
) -> (r: (Vec<DualBalancedTernaryDigit>, Vec<DualBalancedTernaryDigit>))
    requires
        n >= 0,
    ensures
        r.0@ == pad_to(from@, n as int).take(n as int).reverse() + to@,
        r.1@ == if n <= from@.len() {
            from@.skip(n as int)
        } else {
            Seq::empty()
        },
{
    let ghost moved = pad_to(from@, n as int).take(n as int).reverse();
    let mut taken: Vec<DualBalancedTernaryDigit> = Vec::new();
    let mut k: i128 = n;
    while k > 0
        invariant
            0 <= k <= n,
            moved == pad_to(from@, n as int).take(n as int).reverse(),
            taken@ == moved.take(n - k),
        decreases k,
    {
        k = k - 1;
        let d = if k < from.len() as i128 {
            from[k as usize]
        } else {
            DualBalancedTernaryDigit::Dbt5
        };
        taken.push(d);
        assert(taken@ =~= moved.take(n - k));
    }
    assert(moved.take(n as int) == moved);
    let mut i: usize = 0;
    while i < to.len()
        invariant
            i <= to.len(),
            taken@ == moved + to@.take(i as int),
        decreases to.len() - i,
    {
        taken.push(to[i]);
        i += 1;
        assert(taken@ =~= moved + to@.take(i as int));
    }
    assert(to@.take(to.len() as int) == to@);
    let mut left: Vec<DualBalancedTernaryDigit> = Vec::new();
    if n <= from.len() as i128 {
        let mut j: usize = n as usize;
        while j < from.len()
            invariant
                0 <= n <= j <= from.len(),
                left@ == from@.subrange(n as int, j as int),
            decreases from.len() - j,
        {
            left.push(from[j]);
            j += 1;
            assert(left@ =~= from@.subrange(n as int, j as int));
        }
        assert(from@.subrange(n as int, from.len() as int) == from@.skip(n as int));
    }
    (taken, left)
}

/// The greatest distance from the units at which a vector can hold a digit.
pub(crate) const PLACE_LIMIT: i128 = 0x1_0000_0000_0000_0000;

impl DualBalancedTernary {
    /// The number zero, without digits.
    pub fn zero() -> (r: Self)
        ensures
            r@ == TernaryView::zero(),
    {
        DualBalancedTernary { integral: Vec::new(), fractional: Vec::new() }
    }

    /// The canonical form: `5` is the zero digit and is dropped from the high
    /// end of the integral part and from the deep end of the fractional part.
    pub fn strip_empty_tails(&self) -> (r: Self)
        ensures
            r@ == self@.strip_empty_tails(),
            r@.is_canonical(),
            self@.is_canonical() ==> r@ == self@,
    {
        let mut y = self.clone();
        strip_digits(&mut y.integral);
        strip_digits(&mut y.fractional);
        proof {
            lemma_strip_tail(self.integral@);
            lemma_strip_tail(self.fractional@);
        }
        y
    }

    /// Adds a digit at a place to this number: 0 is the place of the units, -1
    /// the first place behind the radix point. Carries move up from place to
    /// place until one is the centre.
    pub(crate) fn accumulate(&mut self, place: i128, d: DualBalancedTernaryDigit)
        ensures
            final(self)@ == old(self)@.add_at(place as int, d),
    {
        let mut at = place;
        let mut digit = d;
        while digit != DualBalancedTernaryDigit::Dbt5
            invariant
                self@.add_at(at as int, digit) == old(self)@.add_at(place as int, d),
            decreases self.integral@.len() - at,
        {
            if at >= 0 {
                if at >= self.integral.len() as i128 {
                    extend_with(&mut self.integral, at, digit);
                    return ;
                }
                let i = at as usize;
                let (carry, unit) = self.integral[i].add(digit);
                self.integral[i] = unit;
                digit = carry;
            } else {
                let deep = -1 - at;
                if deep >= self.fractional.len() as i128 {
                    extend_with(&mut self.fractional, deep, digit);
                    return ;
                }
                let i = deep as usize;
                let (carry, unit) = self.fractional[i].add(digit);
                self.fractional[i] = unit;
                digit = carry;
            }
            at = at + 1;
        }
    }

    /// The number with a digit added at a place: 0 is the place of the units,
    /// -1 the first place behind the radix point.
    pub fn add_at(&self, idx: i64, d: DualBalancedTernaryDigit) -> (r: Self)
        ensures
            r@ == self@.add_at(idx as int, d),
    {
        let mut b = self.clone();
        b.accumulate(idx as i128, d);
        b
    }

    /// The additive inverse: every digit negated.
    pub fn negate(&self) -> (r: Self)
        ensures
            r@ == self@.negate(),
    {
        let ghost image = |d: DualBalancedTernaryDigit| d.spec_negate();
        let f = |d: DualBalancedTernaryDigit| -> (y: DualBalancedTernaryDigit)
            ensures
                y == d.spec_negate(),
            { d.negate() };
        DualBalancedTernary {
            integral: map_digits(&self.integral, f, Ghost(image)),
            fractional: map_digits(&self.fractional, f, Ghost(image)),
        }
    }

    /// The conjugate: the part along `1` is kept and the part along `3` negated.
    pub fn conjugate(&self) -> (r: Self)
        ensures
            r@ == self@.conjugate(),
    {
        let ghost image = |d: DualBalancedTernaryDigit| d.spec_flip_left_right();
        let f = |d: DualBalancedTernaryDigit| -> (y: DualBalancedTernaryDigit)
            ensures
                y == d.spec_flip_left_right(),
            { d.flip_left_right() };
        DualBalancedTernary {
            integral: map_digits(&self.integral, f, Ghost(image)),
            fractional: map_digits(&self.fractional, f, Ghost(image)),
        }
    }

    /// The number turned a quarter clockwise.
    pub fn rotate3(&self) -> (r: Self)
        ensures
            r@ == self@.rotate3(),
    {
        let ghost image = |d: DualBalancedTernaryDigit| d.spec_rotate3();
        let f = |d: DualBalancedTernaryDigit| -> (y: DualBalancedTernaryDigit)
            ensures
                y == d.spec_rotate3(),
            { d.rotate3() };
        DualBalancedTernary {
            integral: map_digits(&self.integral, f, Ghost(image)),
            fractional: map_digits(&self.fractional, f, Ghost(image)),
        }
    }

    /// The number turned a quarter anti-clockwise.
    pub fn rotate7(&self) -> (r: Self)
        ensures
            r@ == self@.rotate7(),
    {
        let ghost image = |d: DualBalancedTernaryDigit| d.spec_rotate7();
        let f = |d: DualBalancedTernaryDigit| -> (y: DualBalancedTernaryDigit)
            ensures
                y == d.spec_rotate7(),
            { d.rotate7() };
        DualBalancedTernary {
            integral: map_digits(&self.integral, f, Ghost(image)),
            fractional: map_digits(&self.fractional, f, Ghost(image)),
        }
    }

    /// The number with its two axes exchanged.
    pub fn flip_xy(&self) -> (r: Self)
        ensures
            r@ == self@.flip_xy(),
    {
        let ghost image = |d: DualBalancedTernaryDigit| d.spec_flip_xy();
        let f = |d: DualBalancedTernaryDigit| -> (y: DualBalancedTernaryDigit)
            ensures
                y == d.spec_flip_xy(),
            { d.flip_xy() };
        DualBalancedTernary {
            integral: map_digits(&self.integral, f, Ghost(image)),
            fractional: map_digits(&self.fractional, f, Ghost(image)),
        }
    }

    /// Splits the number into its part along `1`, which holds `1`, `5` and `9`
    /// only, and its part along `3`, which holds `7`, `5` and `3` only. Both
    /// are in canonical form.
    pub fn split_yx(&self) -> (r: (Self, Self))
        ensures
            r.0@ == self@.split_yx().0,
            r.1@ == self@.split_yx().1,
    {
        let ghost image_y = |d: DualBalancedTernaryDigit| d.spec_split_yx().0;
        let ghost image_x = |d: DualBalancedTernaryDigit| d.spec_split_yx().1;
        let f_y = |d: DualBalancedTernaryDigit| -> (y: DualBalancedTernaryDigit)
            ensures
                y == d.spec_split_yx().0,
            { d.split_yx().0 };
        let f_x = |d: DualBalancedTernaryDigit| -> (y: DualBalancedTernaryDigit)
            ensures
                y == d.spec_split_yx().1,
            { d.split_yx().1 };
        let y = DualBalancedTernary {
            integral: map_digits(&self.integral, f_y, Ghost(image_y)),
            fractional: map_digits(&self.fractional, f_y, Ghost(image_y)),
        };
        let x = DualBalancedTernary {
            integral: map_digits(&self.integral, f_x, Ghost(image_x)),
            fractional: map_digits(&self.fractional, f_x, Ghost(image_x)),
        };
        (y.strip_empty_tails(), x.strip_empty_tails())
    }

    /// Adds every digit of another number to this one, each at its place.
    fn accumulate_all(&mut self, other: &Self)
        ensures
            final(self)@ == old(self)@.add_pairs(other@.pairs()),
    {
        let ghost pairs = other@.pairs();
        let mut i: usize = 0;
        while i < other.integral.len()
            invariant
                i <= other.integral.len(),
                pairs == other@.pairs(),
                self@ == old(self)@.add_pairs(pairs.take(i as int)),
            decreases other.integral.len() - i,
        {
            assert(pairs.take(i + 1).drop_last() == pairs.take(i as int));
            self.accumulate(i as i128, other.integral[i]);
            i += 1;
        }
        let mut j: usize = 0;
        while j < other.fractional.len()
            invariant
                j <= other.fractional.len(),
                pairs == other@.pairs(),
                self@ == old(self)@.add_pairs(pairs.take(other.integral.len() + j)),
            decreases other.fractional.len() - j,
        {
            assert(pairs.take(other.integral.len() + j + 1).drop_last() == pairs.take(
                other.integral.len() + j,
            ));
            self.accumulate(-1 - (j as i128), other.fractional[j]);
            j += 1;
        }
        assert(pairs.take(pairs.len() as int) == pairs);
    }

    /// The sum, in canonical form.
    pub fn add(self, other: Self) -> (r: Self)
        ensures
            r@ == self@.add(other@),
            r@.is_canonical(),
    {
        let mut a2 = self;
        a2.accumulate_all(&other);
        a2.strip_empty_tails()
    }

    /// The difference, in canonical form: the sum with the additive inverse.
    pub fn sub(self, other: Self) -> (r: Self)
        ensures
            r@ == self@.sub(other@),
            r@.is_canonical(),
    {
        self.add(other.negate())
    }

    /// Adds the product of two digits at a place: its digit there, its carry
    /// one place higher.
    fn accumulate_product(
        &mut self,
        place: i128,
        a: DualBalancedTernaryDigit,
        b: DualBalancedTernaryDigit,
    )
        requires
            place < i128::MAX,
        ensures
            final(self)@ == old(self)@.add_product(place as int, a, b),
    {
        let (carry, unit) = a.mul(b);
        self.accumulate(place, unit);
        if carry != DualBalancedTernaryDigit::Dbt5 {
            self.accumulate(place + 1, carry);
        }
    }

    /// Adds the products of one digit at a place and every digit of another
    /// number.
    fn accumulate_row(&mut self, place: i128, a: DualBalancedTernaryDigit, other: &Self)
        requires
            -PLACE_LIMIT <= place <= PLACE_LIMIT,
        ensures
            final(self)@ == old(self)@.add_row(place as int, a, other@.pairs()),
    {
        let ghost pairs = other@.pairs();
        let mut i: usize = 0;
        while i < other.integral.len()
            invariant
                i <= other.integral.len(),
                -PLACE_LIMIT <= place <= PLACE_LIMIT,
                pairs == other@.pairs(),
                self@ == old(self)@.add_row(place as int, a, pairs.take(i as int)),
            decreases other.integral.len() - i,
        {
            assert(pairs.take(i + 1).drop_last() == pairs.take(i as int));
            self.accumulate_product(place + i as i128, a, other.integral[i]);
            i += 1;
        }
        let mut j: usize = 0;
        while j < other.fractional.len()
            invariant
                j <= other.fractional.len(),
                -PLACE_LIMIT <= place <= PLACE_LIMIT,
                pairs == other@.pairs(),
                self@ == old(self)@.add_row(
                    place as int,
                    a,
                    pairs.take(other.integral.len() + j),
                ),
            decreases other.fractional.len() - j,
        {
            assert(pairs.take(other.integral.len() + j + 1).drop_last() == pairs.take(
                other.integral.len() + j,
            ));
            self.accumulate_product(place + (-1 - (j as i128)), a, other.fractional[j]);
            j += 1;
        }
        assert(pairs.take(pairs.len() as int) == pairs);
    }

    /// The product: every digit of one number times every digit of the other,
    /// each product added at the sum of the two places. The result is not
    /// brought into canonical form.
    pub fn mul(self, other: Self) -> (r: Self)
        ensures
            r@ == self@.mul(other@),
    {
        let mut result = Self::zero();
        let ghost rows = self@.pairs();
        let ghost row = other@.pairs();
        let mut i: usize = 0;
        while i < self.integral.len()
            invariant
                i <= self.integral.len(),
                rows == self@.pairs(),
                row == other@.pairs(),
                result@ == TernaryView::zero().add_rows(rows.take(i as int), row),
            decreases self.integral.len() - i,
        {
            assert(rows.take(i + 1).drop_last() == rows.take(i as int));
            result.accumulate_row(i as i128, self.integral[i], &other);
            i += 1;
        }
        let mut j: usize = 0;
        while j < self.fractional.len()
            invariant
                j <= self.fractional.len(),
                rows == self@.pairs(),
                row == other@.pairs(),
                result@ == TernaryView::zero().add_rows(rows.take(self.integral.len() + j), row),
            decreases self.fractional.len() - j,
        {
            assert(rows.take(self.integral.len() + j + 1).drop_last() == rows.take(
                self.integral.len() + j,
            ));
            result.accumulate_row(-1 - (j as i128), self.fractional[j], &other);
            j += 1;
        }
        assert(rows.take(rows.len() as int) == rows);
        result
    }

    /// The leading digit and its place, as [`get_first_digit`] gives them, for
    /// a number of any length.
    ///
    /// [`get_first_digit`]: DualBalancedTernary::get_first_digit
    pub(crate) fn leading(&self) -> (r: (DualBalancedTernaryDigit, i128))
        ensures
            r.0 == self@.first_digit().0,
            r.1 == self@.first_digit().1,
            -PLACE_LIMIT < r.1 < PLACE_LIMIT,
    {
        let a2 = self.strip_empty_tails();
        if !a2.integral.is_empty() {
            (a2.integral[a2.integral.len() - 1], a2.integral.len() as i128 - 1)
        } else if a2.fractional.is_empty() {
            (DualBalancedTernaryDigit::Dbt5, 0)
        } else {
            let mut j: usize = 0;
            proof {
                lemma_leading_centers(a2.fractional@);
            }
            while a2.fractional[j] == DualBalancedTernaryDigit::Dbt5
                invariant
                    j < a2.fractional.len(),
                    j <= leading_centers(a2.fractional@) < a2.fractional.len(),
                    forall|i: int|
                        0 <= i < leading_centers(a2.fractional@) ==> a2.fractional@[i]
                            == DualBalancedTernaryDigit::Dbt5,
                    a2.fractional@[leading_centers(a2.fractional@)]
                        != DualBalancedTernaryDigit::Dbt5,
                decreases a2.fractional.len() - j,
            {
                j += 1;
            }
            (a2.fractional[j], -1 - (j as i128))
        }
    }

    /// Whether every place of the number fits in an `i64`, as
    /// [`pairs`](DualBalancedTernary::pairs) and
    /// [`get_first_digit`](DualBalancedTernary::get_first_digit) need it. No
    /// number that a machine of 64 bits can hold fails this.
    pub fn places_fit(&self) -> (r: bool)
        ensures
            r == self@.places_fit(),
    {
        (self.integral.len() as u128) <= 0x8000_0000_0000_0000u128 && (
        self.fractional.len() as u128) <= 0x8000_0000_0000_0000u128
    }

    /// The leading digit and its place: the digit other than `5` at the
    /// highest place, or `(5, 0)` for zero.
    pub fn get_first_digit(&self) -> (r: (DualBalancedTernaryDigit, i64))
        requires
            self@.places_fit(),
        ensures
            r.0 == self@.first_digit().0,
            r.1 == self@.first_digit().1,
    {
        let (digit, place) = self.leading();
        proof {
            lemma_strip_tail(self.integral@);
            lemma_strip_tail(self.fractional@);
            lemma_leading_centers(strip_tail(self.fractional@));
        }
        (digit, place as i64)
    }

    /// Whether every digit is `1`, `5` or `9`: the arithmetic along one axis
    /// works on such numbers.
    pub fn is_linear_ternary(&self) -> (r: bool)
        ensures
            r == self@.is_linear_ternary(),
    {
        digits_linear(&self.integral) && digits_linear(&self.fractional)
    }

    /// Whether this number is greater than another, both on the axis through
    /// `1` and `9`: whether the leading digit of the difference is `1`.
    pub fn linear_greater_than(self, b: DualBalancedTernary) -> (r: bool)
        ensures
            r == (self@.sub(b@).first_digit().0 == DualBalancedTernaryDigit::Dbt1),
    {
        let delta = self.sub(b);
        let (digit, _) = delta.leading();
        digit == DualBalancedTernaryDigit::Dbt1
    }

    /// Whether this number is less than another, both on the axis through `1`
    /// and `9`: whether the leading digit of the difference is `9`.
    pub fn linear_littler_than(self, b: DualBalancedTernary) -> (r: bool)
        ensures
            r == (self@.sub(b@).first_digit().0 == DualBalancedTernaryDigit::Dbt9),
    {
        let delta = self.sub(b);
        let (digit, _) = delta.leading();
        digit == DualBalancedTernaryDigit::Dbt9
    }

    /// Drops the fractional part.
    pub fn round(&self) -> (r: Self)
        ensures
            r@ == self@.round(),
    {
        DualBalancedTernary { integral: copy_digits(&self.integral), fractional: Vec::new() }
    }

    /// Keeps the first `n` digits of the fractional part and drops the rest.
    /// With `n` no less than their number nothing changes.
    pub fn round_n(&self, n: usize) -> (r: Self)
        ensures
            r@ == self@.round_n(n as nat),
            n >= self@.fractional.len() ==> r@ == self@,
    {
        if n >= self.fractional.len() {
            self.clone()
        } else {
            let mut fractional: Vec<DualBalancedTernaryDigit> = Vec::new();
            let mut i: usize = 0;
            while i < n
                invariant
                    i <= n < self.fractional.len(),
                    fractional@ == self.fractional@.take(i as int),
                decreases n - i,
            {
                fractional.push(self.fractional[i]);
                i += 1;
            }
            DualBalancedTernary { integral: copy_digits(&self.integral), fractional }
        }
    }

    /// Moves the radix point `n` places to the right, or, for a negative
    /// `n`, to the left: the digit at a place is afterwards found `n` places
    /// higher. Where the point passes the last digit of a part, `5` is put
    /// in.
    pub fn move_by(&self, n: i64) -> (r: Self)
        ensures
            r@ == self@.move_by(n as int),
    {
        if n >= 0 {
            let (integral, fractional) = shift_digits(&self.fractional, &self.integral, n as i128);
            DualBalancedTernary { integral, fractional }
        } else {
            let (fractional, integral) = shift_digits(
                &self.integral,
                &self.fractional,
                -(n as i128),
            );
            DualBalancedTernary { integral, fractional }
        }
    }

    /// Every digit with its place: the integral digits from the units
    /// upwards, then the fractional digits from the radix point downwards.
    pub fn pairs(&self) -> (r: Vec<(i64, DualBalancedTernaryDigit)>)
        requires
            self@.places_fit(),
        ensures
            pairs_view(r@) == self@.pairs(),
    {
        let mut result: Vec<(i64, DualBalancedTernaryDigit)> = Vec::new();
        let ghost pairs = self@.pairs();
        let mut i: usize = 0;
        while i < self.integral.len()
            invariant
                i <= self.integral.len(),
                self@.places_fit(),
                pairs == self@.pairs(),
                pairs_view(result@) == pairs.take(i as int),
            decreases self.integral.len() - i,
        {
            let ghost before = result@;
            result.push((i as i64, self.integral[i]));
            assert(pairs_view(result@) =~= pairs_view(before).push(pairs[i as int]));
            i += 1;
            assert(pairs_view(result@) =~= pairs.take(i as int));
        }
        let mut j: usize = 0;
        while j < self.fractional.len()
            invariant
                j <= self.fractional.len(),
                self@.places_fit(),
                pairs == self@.pairs(),
                pairs_view(result@) == pairs.take(self.integral.len() + j),
            decreases self.fractional.len() - j,
        {
            let ghost before = result@;
            result.push(((-1 - (j as i128)) as i64, self.fractional[j]));
            assert(pairs_view(result@) =~= pairs_view(before).push(
                pairs[self.integral.len() + j],
            ));
            j += 1;
            assert(pairs_view(result@) =~= pairs.take(self.integral.len() + j));
        }
        assert(pairs.take(pairs.len() as int) == pairs);
        result
    }

    /// Whether the number is zero, that is, has no digit but `5`.
    pub fn is_zero(&self) -> (r: bool)
        ensures
            r == self@.is_zero(),
            r == (self@.strip_empty_tails() == TernaryView::zero()),
    {
        let a2 = self.strip_empty_tails();
        proof {
            lemma_strip_tail_empty(self.integral@);
            lemma_strip_tail_empty(self.fractional@);
            if a2.integral@.len() == 0 && a2.fractional@.len() == 0 {
                assert(a2@.integral =~= Seq::empty());
                assert(a2@.fractional =~= Seq::empty());
            }
        }
        a2.integral.is_empty() && a2.fractional.is_empty()
    }
}

} // verus!
