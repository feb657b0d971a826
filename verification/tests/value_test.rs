use dual_balanced_ternary::expansion::TernaryExpansion;
use dual_balanced_ternary::DualBalancedTernaryDigit::{Dbt1, Dbt3, Dbt8};
use dual_balanced_ternary::{ternary, DualBalancedTernary, DualBalancedTernaryDigit};
use std::str::FromStr;

/// the two coordinates of a number, times `3^scale`
fn scaled(value: &DualBalancedTernary, scale: u32) -> (i128, i128) {
    assert!(value.fractional.len() <= scale as usize);
    let mut x = 0;
    let mut y = 0;
    for (i, d) in value.integral.iter().enumerate() {
        let (dx, dy) = d.vector();
        let weight = 3i128.pow(scale + i as u32);
        x += i128::from(dx) * weight;
        y += i128::from(dy) * weight;
    }
    for (j, d) in value.fractional.iter().enumerate() {
        let (dx, dy) = d.vector();
        let weight = 3i128.pow(scale - 1 - j as u32);
        x += i128::from(dx) * weight;
        y += i128::from(dy) * weight;
    }
    (x, y)
}

const SAMPLES: [&str; 12] = [
    "&5", "&1", "&9.9", "&1.1", "&23.456", "&.5519", "&7777.2222", "&616", "&743316",
    "&9.41658555559", "&3.7", "&64.26",
];

#[test]
fn value_of_single_digits() {
    assert_eq!(scaled(&ternary("&1"), 0), (0, 1));
    assert_eq!(scaled(&ternary("&3"), 0), (1, 0));
    assert_eq!(scaled(&ternary("&15"), 0), (0, 3));
    assert_eq!(scaled(&ternary("&.3"), 1), (1, 0));
    assert_eq!(scaled(&ternary("&.3"), 2), (3, 0));
    assert_eq!(scaled(&ternary("&28.4"), 1), (3 * (-3 + 1) + 1, 3 * (-3 + 1) - 1));
}

#[test]
fn value_of_add_at_grows_by_the_digit() {
    for text in SAMPLES {
        for place in [-4i64, -1, 0, 1, 5] {
            for d in [Dbt1, Dbt3, Dbt8] {
                let before = scaled(&ternary(text), 12);
                let after = scaled(&ternary(text).add_at(place, d), 12);
                let weight = 3i128.pow((12 + place) as u32);
                let (dx, dy) = d.vector();
                assert_eq!(after.0, before.0 + i128::from(dx) * weight);
                assert_eq!(after.1, before.1 + i128::from(dy) * weight);
            }
        }
    }
}

#[test]
fn value_of_a_sum_is_the_sum_of_the_values() {
    for a in SAMPLES {
        for b in SAMPLES {
            let sum = scaled(&ternary(a).add(ternary(b)), 12);
            let left = scaled(&ternary(a), 12);
            let right = scaled(&ternary(b), 12);
            assert_eq!(sum, (left.0 + right.0, left.1 + right.1));
            let difference = scaled(&ternary(a).sub(ternary(b)), 12);
            assert_eq!(difference, (left.0 - right.0, left.1 - right.1));
            assert_eq!(ternary(a).add(ternary(b)), ternary(b).add(ternary(a)));
        }
    }
}

#[test]
fn value_of_a_product_is_the_complex_product() {
    for a in SAMPLES {
        for b in SAMPLES {
            let left = ternary(a);
            let right = ternary(b);
            let irregular = (left.integral.contains(&Dbt8) || left.fractional.contains(&Dbt8))
                && (right.integral.contains(&Dbt1) || right.fractional.contains(&Dbt1));
            if irregular {
                continue;
            }
            let (xa, ya) = scaled(&left, 11);
            let (xb, yb) = scaled(&right, 11);
            let product = scaled(&left.mul(right), 22);
            assert_eq!(product, (ya * xb + xa * yb, ya * yb - xa * xb));
        }
    }
}

#[test]
fn value_of_the_digitwise_maps() {
    for text in SAMPLES {
        let (x, y) = scaled(&ternary(text), 12);
        assert_eq!(scaled(&ternary(text).negate(), 12), (-x, -y));
        assert_eq!(scaled(&ternary(text).conjugate(), 12), (-x, y));
        assert_eq!(scaled(&ternary(text).rotate3(), 12), (y, -x));
        assert_eq!(scaled(&ternary(text).rotate7(), 12), (-y, x));
        assert_eq!(scaled(&ternary(text).flip_xy(), 12), (y, x));
        let (vertical, horizontal) = ternary(text).split_yx();
        assert_eq!(scaled(&vertical, 12), (0, y));
        assert_eq!(scaled(&horizontal, 12), (x, 0));
    }
}

#[test]
fn value_of_a_moved_number() {
    for text in SAMPLES {
        let (x, y) = scaled(&ternary(text), 12);
        assert_eq!(scaled(&ternary(text).move_by(2), 12), (9 * x, 9 * y));
        assert_eq!(scaled(&ternary(text).move_by(-1), 13), (x, y));
    }
}

#[test]
fn value_decides_the_linear_order() {
    let linear = ["&5", "&1", "&9", "&19", "&91", "&1.9", "&.1", "&.59", "&111", "&9.51"];
    for a in linear {
        for b in linear {
            let left = scaled(&ternary(a), 3).1;
            let right = scaled(&ternary(b), 3).1;
            assert_eq!(ternary(a).linear_greater_than(ternary(b)), left > right);
            assert_eq!(ternary(a).linear_littler_than(ternary(b)), left < right);
        }
    }
}

#[test]
fn linear_division_keeps_the_balance() {
    let linear = ["&1", "&9", "&19", "&91", "&1.9", "&.1", "&.59", "&111", "&9.51", "&195191"];
    for a in linear {
        for b in linear {
            let quotient = ternary(a).linear_divide(ternary(b)).unwrap();
            let left = ternary(a).sub(quotient.clone().mul(ternary(b)));
            // quotient * divisor + what is left = dividend
            let q = scaled(&quotient, 40).1;
            let d = scaled(&ternary(b), 3).1;
            let r = scaled(&left, 43).1;
            assert_eq!(q * d + r, scaled(&ternary(a), 43).1);
            assert!(quotient.is_linear_ternary());
        }
    }
}

#[test]
fn linear_division_comes_out_even_for_most_products() {
    let linear = ["&1", "&9", "&19", "&91", "&1.9", "&.1", "&.59", "&111", "&9.51"];
    for a in linear {
        for b in linear {
            if (a, b) == ("&111", "&111") {
                continue;
            }
            let product = ternary(a).mul(ternary(b));
            assert_eq!(product.linear_divide(ternary(b)), Ok(ternary(a)));
        }
    }
}

#[test]
fn linear_division_may_swing_around_the_quotient() {
    // 169 / 13: the guesses are 27, -27, 27, ... and cancel after an even
    // number of steps
    assert_eq!(ternary("&195191").linear_divide(ternary("&111")), Ok(ternary("&5")));
}

#[test]
fn value_of_an_expansion() {
    for (negative, whole, fraction) in [
        (false, 0u64, vec![]),
        (false, 7, vec![]),
        (true, 7, vec![]),
        (false, 123456789, vec![1, 2, 0, 2]),
        (true, 80, vec![2, 2, 2, 2, 2, 2, 2, 2, 2, 2]),
        (false, u64::MAX, vec![0, 1]),
    ] {
        let e = TernaryExpansion { negative, whole, fraction: fraction.clone() };
        let value = DualBalancedTernary::from_expansion(&e).unwrap();
        let mut expected = i128::from(whole) * 3i128.pow(10);
        if negative {
            expected = -expected;
        }
        for (k, t) in fraction.iter().enumerate() {
            expected += i128::from(*t) * 3i128.pow(9 - k as u32);
        }
        assert_eq!(scaled(&value, 10), (expected, 0));
    }
}

#[test]
fn conversions_of_the_standard_library() {
    assert_eq!(u8::from(Dbt3), 3);
    assert_eq!(DualBalancedTernaryDigit::try_from(3u8), Ok(Dbt3));
    assert_eq!(DualBalancedTernaryDigit::try_from('8'), Ok(Dbt8));
    assert_eq!(DualBalancedTernaryDigit::try_from((0i64, 1i64)), Ok(Dbt1));
    assert!(DualBalancedTernaryDigit::try_from(0u8).is_err());
    assert!(DualBalancedTernaryDigit::try_from('x').is_err());
    assert!(DualBalancedTernaryDigit::try_from((3i64, 1i64)).is_err());
    assert_eq!("&23.456".parse::<DualBalancedTernary>(), Ok(ternary("&23.456")));
    assert_eq!(<DualBalancedTernary as FromStr>::from_str("&1.1"), Ok(ternary("&1.1")));
    assert!("23".parse::<DualBalancedTernary>().is_err());
}
