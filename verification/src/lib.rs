//! Dual balanced ternary arithmetic.
//!
//! Dual balanced ternary extends balanced ternary to the plane. A digit is one
//! of the nine cells of a magic square, with `5` at the centre and `1` pointing
//! to the front:
//!
//! ```text
//!   6 1 8
//!   7 5 3
//!   2 9 4
//! ```
//!
//! At a bigger scale the layout of the square repeats, which gives numbers such
//! as `&11` and `&19`; the mark `&` tells that the digits are dual balanced
//! ternary. The arithmetic is that of the complex numbers, with `1` as the unit
//! and `3` as the imaginary unit:
//!
//! ```text
//! &1 * &1 = &1     &1 + &3 = &8
//! &1 * &9 = &9     &1 + &1 = &19
//! &9 * &9 = &1     &3 * &7 = &1
//! &3 * &3 = &9
//! ```
//!
//! The functions are verified against contracts over a mathematical model:
//!
//! - [`digit`]: the nine digits, their symmetries, sum and product;
//! - [`model`]: a number as two sequences of digits, and what each operation
//!   makes of them;
//! - [`primes`]: the numbers themselves, with addition, subtraction and
//!   multiplication;
//! - [`division`]: division along one axis and in the plane;
//! - [`text`] and [`buffer`]: the written and the packed form;
//! - [`expansion`]: numbers from real coordinates given in base 3;
//! - [`ops`] and [`convert`]: the operators and conversions of the standard
//!   library;
//! - [`value`], [`product`], [`order`] and [`laws`]: the point of the plane
//!   that a number stands for, and the laws of the arithmetic.

pub mod buffer;
pub mod convert;
pub mod digit;
pub mod division;
pub mod error;
pub mod expansion;
pub mod laws;
pub mod model;
pub mod ops;
pub mod order;
pub mod prefix;
pub mod primes;
pub mod product;
pub mod text;
pub mod value;

pub use digit::DualBalancedTernaryDigit;
pub use primes::{DualBalancedTernary, DIV_PRECISION};

use model::{pairs_view, TernaryView};
use vstd::prelude::*;

verus! {

/// Reads a number from a text that is known to hold one, such as `"&1.2"`.
/// A text that may hold none goes to [`DualBalancedTernary::from_str`].
pub fn ternary(s: &str) -> (r: DualBalancedTernary)
    requires
        TernaryView::parse(s@) is Ok,
    ensures
        TernaryView::parse(s@) == Ok::<TernaryView, error::ParseError>(r@),
        r@.is_canonical(),
{
    match DualBalancedTernary::from_str(s) {
        Ok(x) => x,
        Err(_) => vstd::pervasive::unreached(),
    }
}

/// The digits of a number with their places, in the order in which they are
/// written: the integral digits from the highest place down, then the
/// fractional digits.
pub fn dbt_digits(x: DualBalancedTernary) -> (r: Vec<(i64, DualBalancedTernaryDigit)>)
    requires
        x@.places_fit(),
    ensures
        pairs_view(r@) == x@.digits_high_first(),
{
    let mut ys: Vec<(i64, DualBalancedTernaryDigit)> = Vec::new();
    let ghost pairs = x@.digits_high_first();
    let mut idx: usize = 0;
    while idx < x.integral.len()
        invariant
            idx <= x.integral.len(),
            x@.places_fit(),
            pairs == x@.digits_high_first(),
            pairs_view(ys@) == pairs.take(idx as int),
        decreases x.integral.len() - idx,
    {
        let i = x.integral.len() - idx - 1;
        let ghost before = ys@;
        ys.push((i as i64, x.integral[i]));
        assert(pairs_view(ys@) =~= pairs_view(before).push(pairs[idx as int]));
        idx += 1;
        assert(pairs_view(ys@) =~= pairs.take(idx as int));
    }
    let mut j: usize = 0;
    while j < x.fractional.len()
        invariant
            j <= x.fractional.len(),
            x@.places_fit(),
            pairs == x@.digits_high_first(),
            pairs_view(ys@) == pairs.take(x.integral.len() + j),
        decreases x.fractional.len() - j,
    {
        let ghost before = ys@;
        ys.push(((-1 - (j as i128)) as i64, x.fractional[j]));
        assert(pairs_view(ys@) =~= pairs_view(before).push(pairs[x.integral.len() + j]));
        j += 1;
        assert(pairs_view(ys@) =~= pairs.take(x.integral.len() + j));
    }
    assert(pairs.take(pairs.len() as int) == pairs);
    ys
}

} // verus!
