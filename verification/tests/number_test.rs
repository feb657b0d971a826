use dual_balanced_ternary::error::{ArithmeticError, ExpansionError};
use dual_balanced_ternary::expansion::TernaryExpansion;
use dual_balanced_ternary::DualBalancedTernaryDigit::{
    Dbt1, Dbt2, Dbt3, Dbt4, Dbt5, Dbt6, Dbt7, Dbt8, Dbt9,
};
use dual_balanced_ternary::{ternary, DualBalancedTernary, DIV_PRECISION};
use std::collections::hash_map::DefaultHasher;
use std::collections::HashSet;
use std::hash::{Hash, Hasher};

const SAMPLES: [&str; 10] = [
    "&5",
    "&1",
    "&9.9",
    "&1.1",
    "&23.456",
    "&.5519",
    "&8888.2222",
    "&616",
    "&743316",
    "&9.41658555559",
];

fn number(integral: &[u8], fractional: &[u8]) -> DualBalancedTernary {
    let digits = |codes: &[u8]| {
        codes
            .iter()
            .map(|c| dual_balanced_ternary::DualBalancedTernaryDigit::from_u8(*c).unwrap())
            .collect()
    };
    DualBalancedTernary { integral: digits(integral), fractional: digits(fractional) }
}

fn hash_of(x: &DualBalancedTernary) -> u64 {
    let mut hasher = DefaultHasher::new();
    x.hash(&mut hasher);
    hasher.finish()
}

#[test]
fn strip_drops_the_centre_at_both_ends() {
    let x = number(&[5, 1, 5, 5], &[5, 2, 5]).strip_empty_tails();
    assert_eq!(x.integral, vec![Dbt5, Dbt1]);
    assert_eq!(x.fractional, vec![Dbt5, Dbt2]);
    let zero = number(&[5, 5], &[5]).strip_empty_tails();
    assert!(zero.integral.is_empty());
    assert!(zero.fractional.is_empty());
}

#[test]
fn strip_twice_is_strip_once() {
    for x in [number(&[5, 1, 5, 5], &[5, 2, 5]), number(&[5], &[]), number(&[1, 2], &[3]), number(&[], &[5, 5, 9, 5])] {
        let once = x.strip_empty_tails();
        let twice = once.strip_empty_tails();
        assert_eq!(once.integral, twice.integral);
        assert_eq!(once.fractional, twice.fractional);
    }
}

#[test]
fn equality_looks_at_the_canonical_form() {
    assert_eq!(number(&[1, 5], &[2, 5, 5]), number(&[1], &[2]));
    assert_ne!(number(&[5, 1], &[2]), number(&[1], &[2]));
    assert_ne!(number(&[1], &[5, 2]), number(&[1], &[2]));
    assert_ne!(ternary("&1"), ternary("&15"));
    assert_ne!(ternary("&1"), ternary("&.1"));
    assert_eq!(ternary("&1"), ternary("&1.5"));
    assert_eq!(ternary("&1"), ternary("&51"));
}

#[test]
fn test_hashes() {
    assert_eq!(hash_of(&ternary("&1")), hash_of(&ternary("&1.5")));
    assert_eq!(hash_of(&ternary("&1")), hash_of(&ternary("&51")));
    assert_eq!(hash_of(&number(&[1, 5], &[2, 5, 5])), hash_of(&number(&[1], &[2])));
    assert_eq!(hash_of(&number(&[5, 5], &[5])), hash_of(&DualBalancedTernary::zero()));
    assert_ne!(hash_of(&ternary("&1")), hash_of(&ternary("&9")));
    assert_ne!(hash_of(&ternary("&1")), hash_of(&ternary("&15")));
    assert_ne!(hash_of(&ternary("&1")), hash_of(&ternary("&.1")));
    let mut set = HashSet::new();
    set.insert(ternary("&12.3"));
    assert!(set.contains(&ternary("&512.35")));
    assert!(!set.contains(&ternary("&12.4")));
}

#[test]
fn is_zero_means_no_digit_but_the_centre() {
    assert!(DualBalancedTernary::zero().is_zero());
    assert!(number(&[5, 5], &[5]).is_zero());
    assert!(ternary("&5.5").is_zero());
    assert!(!ternary("&.551").is_zero());
    assert!(!ternary("&155").is_zero());
}

#[test]
fn add_at_fills_up_with_the_centre() {
    let x = DualBalancedTernary::zero().add_at(3, Dbt2);
    assert_eq!(x.integral, vec![Dbt5, Dbt5, Dbt5, Dbt2]);
    assert!(x.fractional.is_empty());
    let y = DualBalancedTernary::zero().add_at(-3, Dbt2);
    assert!(y.integral.is_empty());
    assert_eq!(y.fractional, vec![Dbt5, Dbt5, Dbt2]);
    let z = ternary("&1.1").add_at(7, Dbt5);
    assert_eq!(z.integral, vec![Dbt1]);
    assert_eq!(z.fractional, vec![Dbt1]);
}

#[test]
fn add_at_carries_up_and_over_the_radix_point() {
    // 1 + 1 = 19 at every place
    let x = ternary("&111.11").add_at(-2, Dbt1);
    assert_eq!(x.to_string(), "&1999.99");
    let y = ternary("&.8").add_at(-1, Dbt8);
    assert_eq!(y.to_string(), "&8.2");
    let z = ternary("&8").add_at(0, Dbt8);
    assert_eq!(z.to_string(), "&82");
    // a carry that meets its inverse stops
    let w = ternary("&91").add_at(0, Dbt1);
    assert_eq!(w.integral, vec![Dbt9, Dbt5]);
}

#[test]
fn negate_then_add_is_zero() {
    for text in SAMPLES {
        let sum = ternary(text).add(ternary(text).negate());
        assert!(sum.integral.is_empty());
        assert!(sum.fractional.is_empty());
        assert_eq!(ternary(text).sub(ternary(text)), ternary("&5"));
    }
    let padded = number(&[1, 5, 5], &[5, 2, 5]);
    let sum = padded.clone().add(padded.negate());
    assert!(sum.integral.is_empty());
    assert!(sum.fractional.is_empty());
}

#[test]
fn add_gives_the_canonical_form() {
    let sum = number(&[1, 5, 5], &[5, 5]).add(number(&[5], &[]));
    assert_eq!(sum.integral, vec![Dbt1]);
    assert!(sum.fractional.is_empty());
    assert_eq!(ternary("&3").add(ternary("&1")).to_string(), "&8");
    assert_eq!(ternary("&1").add(ternary("&1")).to_string(), "&19");
    assert_eq!(ternary("&8.8").add(ternary("&8.8")).to_string(), "&85.2");
}

#[test]
fn mul_does_not_strip() {
    let product = ternary("&35").mul(ternary("&45"));
    assert_eq!(product.to_string(), "&255");
    let zero = ternary("&1.1").mul(ternary("&5"));
    assert!(zero.is_zero());
    assert_eq!(ternary("&3").mul(ternary("&7")), ternary("&1"));
    assert_eq!(ternary("&9").mul(ternary("&9")), ternary("&1"));
    assert_eq!(ternary("&1").mul(ternary("&1")), ternary("&1"));
    assert_eq!(ternary("&1").mul(ternary("&9")), ternary("&9"));
}

#[test]
fn mul_keeps_the_irregular_entry() {
    assert_eq!(ternary("&8").mul(ternary("&1")), ternary("&18"));
    assert_eq!(ternary("&1").mul(ternary("&8")), ternary("&8"));
}

#[test]
fn digitwise_maps() {
    assert_eq!(ternary("&12.34").conjugate().to_string(), "&14.72");
    assert_eq!(ternary("&12.34").rotate3().to_string(), "&36.92");
    assert_eq!(ternary("&12.34").rotate7().to_string(), "&74.18");
    assert_eq!(ternary("&12.34").flip_xy().to_string(), "&32.16");
    assert_eq!(ternary("&12.34").negate().to_string(), "&98.76");
    for text in SAMPLES {
        assert_eq!(ternary(text).rotate3().rotate7(), ternary(text));
        assert_eq!(ternary(text).conjugate().conjugate(), ternary(text));
        assert_eq!(ternary(text).rotate3().rotate3(), ternary(text).negate());
    }
}

#[test]
fn split_gives_the_part_on_each_axis() {
    let (vertical, horizontal) = ternary("&28").split_yx();
    assert_eq!(vertical.to_string(), "&91");
    assert_eq!(horizontal.to_string(), "&73");
    let (vertical, horizontal) = ternary("&3.7").split_yx();
    assert!(vertical.is_zero());
    assert!(vertical.integral.is_empty());
    assert_eq!(horizontal.to_string(), "&3.7");
    for text in SAMPLES {
        let (vertical, horizontal) = ternary(text).split_yx();
        assert!(vertical.is_linear_ternary());
        assert!(horizontal.rotate7().is_linear_ternary());
        assert_eq!(vertical.add(horizontal), ternary(text));
    }
}

#[test]
fn linear_numbers_hold_three_digits_only() {
    assert!(ternary("&1959.191").is_linear_ternary());
    assert!(ternary("&5").is_linear_ternary());
    assert!(!ternary("&1939").is_linear_ternary());
    assert!(!ternary("&19.2").is_linear_ternary());
    for d in [Dbt2, Dbt3, Dbt4, Dbt6, Dbt7, Dbt8] {
        assert!(!DualBalancedTernary::zero().add_at(0, d).is_linear_ternary());
    }
}

#[test]
fn first_digit_is_the_highest_that_counts() {
    assert_eq!(ternary("&234").get_first_digit(), (Dbt2, 2));
    assert_eq!(ternary("&5534.1").get_first_digit(), (Dbt3, 1));
    assert_eq!(ternary("&.5519").get_first_digit(), (Dbt1, -3));
    assert_eq!(ternary("&.7").get_first_digit(), (Dbt7, -1));
    assert_eq!(ternary("&5").get_first_digit(), (Dbt5, 0));
    assert_eq!(number(&[5, 5], &[5, 5, 4, 5]).get_first_digit(), (Dbt4, -3));
}

#[test]
fn pairs_go_from_the_units_up_and_then_down() {
    assert_eq!(
        ternary("&23.456").pairs(),
        vec![(0, Dbt3), (1, Dbt2), (-1, Dbt4), (-2, Dbt5), (-3, Dbt6)]
    );
    assert_eq!(ternary("&5").pairs(), vec![]);
}

#[test]
fn rounding_cuts_off() {
    assert_eq!(ternary("&2.999").round().to_string(), "&2");
    assert_eq!(ternary("&2.999").round_n(1).to_string(), "&2.9");
    assert_eq!(ternary("&2.444").round_n(2), ternary("&2.44"));
    let x = ternary("&12.345");
    for n in [3, 4, 100, usize::MAX] {
        let same = x.round_n(n);
        assert_eq!(same.integral, x.integral);
        assert_eq!(same.fractional, x.fractional);
    }
    assert_eq!(x.round_n(0).integral, x.integral);
    assert!(x.round_n(0).fractional.is_empty());
}

#[test]
fn move_by_shifts_the_radix_point() {
    let x = ternary("&12.34");
    assert_eq!(x.move_by(0).to_string(), "&12.34");
    assert_eq!(x.move_by(1).to_string(), "&123.4");
    assert_eq!(x.move_by(2).to_string(), "&1234");
    assert_eq!(x.move_by(3).to_string(), "&12345");
    assert_eq!(x.move_by(4).to_string(), "&123455");
    assert_eq!(x.move_by(-1).to_string(), "&1.234");
    assert_eq!(x.move_by(-2).to_string(), "&.1234");
    assert_eq!(x.move_by(-3).to_string(), "&.51234");
    let y = x.move_by(3);
    assert_eq!(y.integral, vec![Dbt5, Dbt4, Dbt3, Dbt2, Dbt1]);
    assert!(y.fractional.is_empty());
    let z = x.move_by(-4);
    assert!(z.integral.is_empty());
    assert_eq!(z.fractional, vec![Dbt5, Dbt5, Dbt1, Dbt2, Dbt3, Dbt4]);
    for n in [-5, -2, -1, 0, 1, 2, 5] {
        assert_eq!(x.move_by(n).move_by(-n), x);
    }
    assert_eq!(DualBalancedTernary::zero().move_by(2).integral, vec![Dbt5, Dbt5]);
}

#[test]
fn linear_order_looks_at_the_leading_digit_of_the_difference() {
    assert!(ternary("&1").linear_greater_than(ternary("&9")));
    assert!(ternary("&9").linear_littler_than(ternary("&1")));
    assert!(ternary("&19").linear_greater_than(ternary("&1")));
    assert!(ternary("&1").linear_littler_than(ternary("&19")));
    assert!(ternary("&.1").linear_greater_than(ternary("&.59")));
    assert!(!ternary("&1").linear_greater_than(ternary("&1")));
    assert!(!ternary("&1").linear_littler_than(ternary("&1")));
    assert!(ternary("&91").linear_littler_than(ternary("&9")));
}

#[test]
fn linear_divide_checks_its_operands() {
    assert_eq!(ternary("&19").linear_divide(ternary("&5")), Err(ArithmeticError::DivisionByZero));
    assert_eq!(ternary("&13").linear_divide(ternary("&1")), Err(ArithmeticError::NotLinear));
    assert_eq!(ternary("&19").linear_divide(ternary("&3")), Err(ArithmeticError::NotLinear));
    assert_eq!(ternary("&5").linear_divide(ternary("&5")), Ok(ternary("&5")));
    assert_eq!(ternary("&5").linear_divide(ternary("&3")), Ok(ternary("&5")));
}

#[test]
fn linear_divide_by_sign_agreement() {
    // 6 / 2, 6 / -2, -6 / 2, -6 / -2
    assert_eq!(ternary("&195").linear_divide(ternary("&19")), Ok(ternary("&15")));
    assert_eq!(ternary("&195").linear_divide(ternary("&91")), Ok(ternary("&95")));
    assert_eq!(ternary("&915").linear_divide(ternary("&19")), Ok(ternary("&95")));
    assert_eq!(ternary("&915").linear_divide(ternary("&91")), Ok(ternary("&15")));
    assert_eq!(ternary("&1").linear_divide(ternary("&15")), Ok(ternary("&.1")));
    assert_eq!(ternary("&15").linear_divide(ternary("&.1")), Ok(ternary("&155")));
}

#[test]
fn linear_divide_stops_after_twice_the_precision() {
    // 1 / 2 is .111... in balanced ternary
    let half = ternary("&1").linear_divide(ternary("&19")).unwrap();
    assert!(half.integral.is_empty());
    assert_eq!(half.fractional, vec![Dbt1; 2 * DIV_PRECISION]);
    assert!(half.is_linear_ternary());
}

#[test]
fn divide_refuses_zero() {
    assert_eq!(ternary("&12").div(ternary("&5")), Err(ArithmeticError::DivisionByZero));
    assert_eq!(ternary("&5").div(ternary("&.555")), Err(ArithmeticError::DivisionByZero));
    assert_eq!(ternary("&5").div(ternary("&2")), Ok(ternary("&5")));
}

#[test]
fn divide_in_the_plane() {
    assert_eq!(ternary("&2").div(ternary("&3")), Ok(ternary("&4")));
    assert_eq!(ternary("&9").div(ternary("&3")), Ok(ternary("&3")));
    assert_eq!(ternary("&1").div(ternary("&3")), Ok(ternary("&7")));
    assert_eq!(ternary("&255").div(ternary("&45")), Ok(ternary("&35")));
}

#[test]
fn expansion_builds_along_the_horizontal_axis() {
    let from = |negative: bool, whole: u64, fraction: &[u8]| {
        DualBalancedTernary::from_expansion(&TernaryExpansion {
            negative,
            whole,
            fraction: fraction.to_vec(),
        })
    };
    assert_eq!(from(false, 0, &[]), Ok(ternary("&5")));
    assert_eq!(from(false, 1, &[]), Ok(ternary("&3")));
    assert_eq!(from(false, 2, &[]), Ok(ternary("&37")));
    assert_eq!(from(false, 3, &[]), Ok(ternary("&35")));
    assert_eq!(from(false, 4, &[]), Ok(ternary("&33")));
    assert_eq!(from(false, 5, &[]), Ok(ternary("&377")));
    assert_eq!(from(true, 4, &[]), Ok(ternary("&77")));
    assert_eq!(from(false, 0, &[1]), Ok(ternary("&.3")));
    assert_eq!(from(false, 0, &[2]), Ok(ternary("&3.7")));
    assert_eq!(from(false, 0, &[0, 1]), Ok(ternary("&.53")));
    // -2 + 1/3
    assert_eq!(from(true, 2, &[1]), Ok(ternary("&73.3")));
    let whole = from(false, 0, &[]).unwrap();
    assert!(whole.integral.is_empty());
}

#[test]
fn expansion_reads_no_more_than_the_precision() {
    let long = TernaryExpansion { negative: false, whole: 0, fraction: vec![1; DIV_PRECISION + 5] };
    let x = DualBalancedTernary::from_expansion(&long).unwrap();
    assert_eq!(x.fractional, vec![Dbt3; DIV_PRECISION]);
    let mut fraction = vec![0; DIV_PRECISION];
    fraction.push(7);
    let late = TernaryExpansion { negative: false, whole: 0, fraction };
    assert_eq!(DualBalancedTernary::from_expansion(&late), Ok(ternary("&5")));
}

#[test]
fn expansion_refuses_a_digit_above_two() {
    let bad = TernaryExpansion { negative: false, whole: 1, fraction: vec![1, 3, 4] };
    assert_eq!(DualBalancedTernary::from_expansion(&bad), Err(ExpansionError::UnexpectedCarry(3)));
    let good = TernaryExpansion { negative: false, whole: 1, fraction: vec![1] };
    assert_eq!(
        DualBalancedTernary::from_expansions(&good, &bad),
        Err(ExpansionError::UnexpectedCarry(3))
    );
    let other = TernaryExpansion { negative: false, whole: 1, fraction: vec![9] };
    assert_eq!(
        DualBalancedTernary::from_expansions(&other, &bad),
        Err(ExpansionError::UnexpectedCarry(9))
    );
}

#[test]
fn expansions_put_the_second_coordinate_on_the_vertical_axis() {
    let one = TernaryExpansion { negative: false, whole: 1, fraction: vec![] };
    let none = TernaryExpansion { negative: false, whole: 0, fraction: vec![] };
    let minus_one = TernaryExpansion { negative: true, whole: 1, fraction: vec![] };
    assert_eq!(DualBalancedTernary::from_expansions(&one, &none), Ok(ternary("&3")));
    assert_eq!(DualBalancedTernary::from_expansions(&none, &one), Ok(ternary("&1")));
    assert_eq!(DualBalancedTernary::from_expansions(&one, &one), Ok(ternary("&8")));
    assert_eq!(DualBalancedTernary::from_expansions(&minus_one, &one), Ok(ternary("&6")));
    assert_eq!(DualBalancedTernary::from_expansions(&one, &minus_one), Ok(ternary("&4")));
    assert_eq!(DualBalancedTernary::from_expansions(&minus_one, &minus_one), Ok(ternary("&2")));
    assert_eq!(ternary("&9"), ternary("&1").negate());
    assert_eq!(ternary("&7"), ternary("&3").negate());
    let _ = (Dbt6, Dbt7, Dbt8, Dbt9);
}
