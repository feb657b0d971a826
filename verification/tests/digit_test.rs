use dual_balanced_ternary::DualBalancedTernaryDigit::{Dbt2, Dbt3, Dbt4, Dbt5, Dbt6};
use dual_balanced_ternary::{dbt_digits, ternary};

#[test]
fn digit_test_equality() {
    assert_eq!(
        dbt_digits(ternary("&23.456")),
        vec![(1, Dbt2), (0, Dbt3), (-1, Dbt4), (-2, Dbt5), (-3, Dbt6)],
    )
}
