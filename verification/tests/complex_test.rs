use dual_balanced_ternary::expansion::TernaryExpansion;
use dual_balanced_ternary::{ternary, DualBalancedTernary, DIV_PRECISION};

/// a real number in base 3, cut off after `DIV_PRECISION` fractional digits
fn expansion(x: f64) -> TernaryExpansion {
    let negative = x < 0.0;
    let mut whole = x.floor() as i64;
    let mut fractional_part = x - x.floor();
    if negative {
        whole = -whole;
    }
    let mut fraction = vec![];
    let mut precision = DIV_PRECISION;
    while fractional_part > 0.0 && precision > 0 {
        fractional_part *= 3.0;
        let left = fractional_part.floor();
        fraction.push(left as u8);
        fractional_part -= left;
        precision -= 1;
    }
    TernaryExpansion { negative, whole: whole as u64, fraction }
}

fn create_dual_balanced_ternary_from_pair(x: f64, y: f64) -> DualBalancedTernary {
    DualBalancedTernary::from_expansions(&expansion(x), &expansion(y)).unwrap()
}

/// the point of the plane that a number stands for
fn to_float(value: &DualBalancedTernary) -> (f64, f64) {
    let mut x = 0.0;
    let mut y = 0.0;
    let mut unit: f64 = 1.0;
    for item in &value.integral {
        let (dx, dy) = item.vector();
        x += f64::from(dx) * unit;
        y += f64::from(dy) * unit;
        unit *= 3.0;
    }
    unit = 1.0;
    for item in &value.fractional {
        unit /= 3.0;
        let (dx, dy) = item.vector();
        x += f64::from(dx) * unit;
        y += f64::from(dy) * unit;
    }
    (x, y)
}

#[test]
fn test_complex() {
    assert_eq!(to_float(&ternary("&4")), (1.0, -1.0));
    assert_eq!(to_float(&ternary("&5")), (0.0, 0.0));
    assert_eq!(to_float(&ternary("&13")), (1.0, 3.0));
    assert_eq!(to_float(&ternary("&66")), (-4.0, 4.0));
    assert_eq!(to_float(&ternary("&.1")), (0.0, 1.0 / 3.0));
    assert_eq!(to_float(&ternary("&.4")), (1.0 / 3.0, -1.0 / 3.0));
    assert_eq!(to_float(&ternary("&.7")), (-1.0 / 3.0, 0.0));

    assert_eq!(create_dual_balanced_ternary_from_pair(4.0, 6.0), ternary("&143"));
    assert_eq!(create_dual_balanced_ternary_from_pair(4.0, 4.0), ternary("&88"));
    assert_eq!(create_dual_balanced_ternary_from_pair(-4.0, -4.0), ternary("&22"));
    assert_eq!(create_dual_balanced_ternary_from_pair(1.0, 7.0), ternary("&198"));

    println!("{}", create_dual_balanced_ternary_from_pair(1.1, 1.1).to_string());
    println!("{}", create_dual_balanced_ternary_from_pair(1.2, -1.2).to_string());
    println!("{}", create_dual_balanced_ternary_from_pair(-1.3, 1.3).to_string());
    println!("{}", create_dual_balanced_ternary_from_pair(-1.4, -1.4).to_string());
    assert_eq!(create_dual_balanced_ternary_from_pair(0.0, 0.0), ternary("&5"));
}
