use dual_balanced_ternary::error::DigitError;
use dual_balanced_ternary::DualBalancedTernaryDigit;
use dual_balanced_ternary::DualBalancedTernaryDigit::{
    Dbt1, Dbt2, Dbt3, Dbt4, Dbt5, Dbt6, Dbt7, Dbt8, Dbt9,
};

const ALL: [DualBalancedTernaryDigit; 9] = [Dbt1, Dbt2, Dbt3, Dbt4, Dbt5, Dbt6, Dbt7, Dbt8, Dbt9];

#[test]
fn digit_vectors_follow_the_square() {
    assert_eq!(Dbt6.vector(), (-1, 1));
    assert_eq!(Dbt1.vector(), (0, 1));
    assert_eq!(Dbt8.vector(), (1, 1));
    assert_eq!(Dbt7.vector(), (-1, 0));
    assert_eq!(Dbt5.vector(), (0, 0));
    assert_eq!(Dbt3.vector(), (1, 0));
    assert_eq!(Dbt2.vector(), (-1, -1));
    assert_eq!(Dbt9.vector(), (0, -1));
    assert_eq!(Dbt4.vector(), (1, -1));
}

#[test]
fn digit_negate_is_an_involution() {
    for d in ALL {
        assert_eq!(d.negate().negate(), d);
        let (x, y) = d.vector();
        assert_eq!(d.negate().vector(), (-x, -y));
    }
    assert_eq!(Dbt5.negate(), Dbt5);
    assert_eq!(Dbt1.negate(), Dbt9);
    assert_eq!(Dbt2.negate(), Dbt8);
}

#[test]
fn digit_flips_mirror_the_square() {
    for d in ALL {
        let (x, y) = d.vector();
        assert_eq!(d.flip_front_back().vector(), (x, -y));
        assert_eq!(d.flip_left_right().vector(), (-x, y));
        assert_eq!(d.flip_xy().vector(), (y, x));
        assert_eq!(d.flip_front_back().flip_front_back(), d);
        assert_eq!(d.flip_left_right().flip_left_right(), d);
        assert_eq!(d.flip_xy().flip_xy(), d);
    }
    assert_eq!(Dbt7.flip_front_back(), Dbt7);
    assert_eq!(Dbt6.flip_front_back(), Dbt2);
    assert_eq!(Dbt1.flip_left_right(), Dbt1);
    assert_eq!(Dbt8.flip_left_right(), Dbt6);
    assert_eq!(Dbt1.flip_xy(), Dbt3);
    assert_eq!(Dbt4.flip_xy(), Dbt6);
}

#[test]
fn digit_rotations_cycle() {
    assert_eq!(Dbt1.rotate3(), Dbt3);
    assert_eq!(Dbt3.rotate3(), Dbt9);
    assert_eq!(Dbt9.rotate3(), Dbt7);
    assert_eq!(Dbt7.rotate3(), Dbt1);
    assert_eq!(Dbt8.rotate3(), Dbt4);
    assert_eq!(Dbt1.rotate7(), Dbt7);
    assert_eq!(Dbt5.rotate3(), Dbt5);
    assert_eq!(Dbt5.rotate7(), Dbt5);
    for d in ALL {
        assert_eq!(d.rotate3().rotate7(), d);
        assert_eq!(d.rotate7().rotate3(), d);
        assert_eq!(d.rotate3().rotate3().rotate3().rotate3(), d);
        assert_eq!(d.rotate3().rotate3(), d.negate());
    }
}

#[test]
fn digit_add_carries_what_overflows() {
    for a in ALL {
        for b in ALL {
            let (carry, unit) = a.add(b);
            let (ax, ay) = a.vector();
            let (bx, by) = b.vector();
            let (cx, cy) = carry.vector();
            let (ux, uy) = unit.vector();
            assert_eq!(3 * cx + ux, ax + bx);
            assert_eq!(3 * cy + uy, ay + by);
            assert_eq!(a.add(b), b.add(a));
        }
        assert_eq!(Dbt5.add(a), (Dbt5, a));
        assert_eq!(a.add(a.negate()), (Dbt5, Dbt5));
    }
    assert_eq!(Dbt1.add(Dbt1), (Dbt1, Dbt9));
    assert_eq!(Dbt1.add(Dbt3), (Dbt5, Dbt8));
    assert_eq!(Dbt2.add(Dbt4), (Dbt9, Dbt1));
    assert_eq!(Dbt8.add(Dbt8), (Dbt8, Dbt2));
}

#[test]
fn digit_mul_identities() {
    assert_eq!(Dbt1.mul(Dbt3), (Dbt5, Dbt3));
    assert_eq!(Dbt3.mul(Dbt3), (Dbt5, Dbt9));
    assert_eq!(Dbt3.mul(Dbt4), (Dbt5, Dbt2));
    assert_eq!(Dbt3.mul(Dbt7), (Dbt5, Dbt1));
    assert_eq!(Dbt9.mul(Dbt9), (Dbt5, Dbt1));
    assert_eq!(Dbt2.mul(Dbt2), (Dbt3, Dbt7));
    assert_eq!(Dbt8.mul(Dbt8), (Dbt3, Dbt7));
    assert_eq!(Dbt4.mul(Dbt8), (Dbt9, Dbt1));
    for b in ALL {
        assert_eq!(Dbt1.mul(b), (Dbt5, b));
        assert_eq!(Dbt5.mul(b), (Dbt5, Dbt5));
        assert_eq!(b.mul(Dbt5), (Dbt5, Dbt5));
        assert_eq!(Dbt9.mul(b), (Dbt5, b.negate()));
        assert_eq!(Dbt3.mul(b), (Dbt5, b.rotate3()));
        assert_eq!(Dbt7.mul(b), (Dbt5, b.rotate7()));
    }
}

#[test]
fn digit_mul_is_the_complex_product_but_for_one_entry() {
    for a in ALL {
        for b in ALL {
            let (carry, unit) = a.mul(b);
            if a == Dbt8 && b == Dbt1 {
                assert_eq!((carry, unit), (Dbt1, Dbt8));
                continue;
            }
            let (ax, ay) = a.vector();
            let (bx, by) = b.vector();
            let (cx, cy) = carry.vector();
            let (ux, uy) = unit.vector();
            assert_eq!(3 * cx + ux, ay * bx + ax * by);
            assert_eq!(3 * cy + uy, ay * by - ax * bx);
        }
    }
    assert_eq!(Dbt1.mul(Dbt8), (Dbt5, Dbt8));
}

#[test]
fn digit_split_gives_one_digit_on_each_axis() {
    assert_eq!(Dbt2.split_yx(), (Dbt9, Dbt7));
    assert_eq!(Dbt8.split_yx(), (Dbt1, Dbt3));
    assert_eq!(Dbt3.split_yx(), (Dbt5, Dbt3));
    assert_eq!(Dbt5.split_yx(), (Dbt5, Dbt5));
    for d in ALL {
        let (vertical, horizontal) = d.split_yx();
        assert_eq!(vertical.vector(), (0, d.vector().1));
        assert_eq!(horizontal.vector(), (d.vector().0, 0));
        assert_eq!(vertical.add(horizontal), (Dbt5, d));
    }
}

#[test]
fn digit_codes_and_characters() {
    for (i, d) in ALL.iter().enumerate() {
        let code = i as u8 + 1;
        assert_eq!(d.to_u8(), code);
        assert_eq!(DualBalancedTernaryDigit::from_u8(code), Ok(*d));
        let c = char::from(b'0' + code);
        assert_eq!(d.to_char(), c);
        assert_eq!(DualBalancedTernaryDigit::from_char(c), Ok(*d));
    }
    assert_eq!(DualBalancedTernaryDigit::from_u8(0), Err(DigitError::UnknownCode(0)));
    assert_eq!(DualBalancedTernaryDigit::from_u8(10), Err(DigitError::UnknownCode(10)));
    assert_eq!(DualBalancedTernaryDigit::from_u8(255), Err(DigitError::UnknownCode(255)));
    assert_eq!(DualBalancedTernaryDigit::from_char('0'), Err(DigitError::InvalidCharacter('0')));
    assert_eq!(DualBalancedTernaryDigit::from_char('a'), Err(DigitError::InvalidCharacter('a')));
    assert_eq!(DualBalancedTernaryDigit::from_char('.'), Err(DigitError::InvalidCharacter('.')));
}

#[test]
fn digit_from_coordinates() {
    assert_eq!(DualBalancedTernaryDigit::from_coordinates((-1, -1)), Ok(Dbt2));
    assert_eq!(DualBalancedTernaryDigit::from_coordinates((-1, 0)), Ok(Dbt7));
    assert_eq!(DualBalancedTernaryDigit::from_coordinates((-1, 1)), Ok(Dbt6));
    assert_eq!(DualBalancedTernaryDigit::from_coordinates((0, -1)), Ok(Dbt9));
    assert_eq!(DualBalancedTernaryDigit::from_coordinates((0, 0)), Ok(Dbt5));
    assert_eq!(DualBalancedTernaryDigit::from_coordinates((0, 1)), Ok(Dbt1));
    assert_eq!(DualBalancedTernaryDigit::from_coordinates((1, -1)), Ok(Dbt8));
    assert_eq!(DualBalancedTernaryDigit::from_coordinates((1, 0)), Ok(Dbt3));
    assert_eq!(DualBalancedTernaryDigit::from_coordinates((1, 1)), Ok(Dbt4));
    assert_eq!(DualBalancedTernaryDigit::from_coordinates((2, 0)), Err(DigitError::UnexpectedX(2)));
    assert_eq!(DualBalancedTernaryDigit::from_coordinates((-2, 5)), Err(DigitError::UnexpectedX(-2)));
    assert_eq!(DualBalancedTernaryDigit::from_coordinates((0, 2)), Err(DigitError::UnexpectedY(2)));
    assert_eq!(DualBalancedTernaryDigit::from_coordinates((1, -3)), Err(DigitError::UnexpectedY(-3)));
}
