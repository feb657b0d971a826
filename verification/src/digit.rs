//! The nine digits, with `5` at the centre and `1` at the front.
use crate::error::DigitError;
use vstd::prelude::*;

verus! {

/// One cell of the square
///
/// ```text
/// 6 1 8
/// 7 5 3
/// 2 9 4
/// ```
///
/// read as the vector from the centre to the cell: `3` is one step along the
/// horizontal axis, `1` one step along the vertical axis.
#[derive(Debug, Copy, Clone, PartialEq, Eq, Hash, Structural)]
pub enum DualBalancedTernaryDigit {
    /// front, `(0, 1)`
    Dbt1,
    /// back left, `(-1, -1)`
    Dbt2,
    /// right, `(1, 0)`
    Dbt3,
    /// back right, `(1, -1)`
    Dbt4,
    /// centre, `(0, 0)`
    Dbt5,
    /// front left, `(-1, 1)`
    Dbt6,
    /// left, `(-1, 0)`
    Dbt7,
    /// front right, `(1, 1)`
    Dbt8,
    /// back, `(0, -1)`
    Dbt9,
}

/// A carry and the digit that stays in place, in this order.
pub type DigitsPair = (DualBalancedTernaryDigit, DualBalancedTernaryDigit);

/// The part of a coordinate sum that moves to the next place: the sum is
/// between -2 and 2, and what stays is between -1 and 1.
pub open spec fn carry_of(sum: int) -> int {
    if sum > 1 {
        1
    } else if sum < -1 {
        -1
    } else {
        0
    }
}

/// The product of a coordinate of a digit, which is -1, 0 or 1, and an
/// integer.
pub open spec fn times(unit: int, value: int) -> int {
    if unit > 0 {
        value
    } else if unit < 0 {
        -value
    } else {
        0
    }
}

impl DualBalancedTernaryDigit {
    /// The horizontal coordinate, -1, 0 or 1.
    pub open spec fn x(self) -> int {
        match self {
            Self::Dbt3 | Self::Dbt4 | Self::Dbt8 => 1,
            Self::Dbt2 | Self::Dbt6 | Self::Dbt7 => -1,
            Self::Dbt1 | Self::Dbt5 | Self::Dbt9 => 0,
        }
    }

    /// The vertical coordinate, -1, 0 or 1.
    pub open spec fn y(self) -> int {
        match self {
            Self::Dbt1 | Self::Dbt6 | Self::Dbt8 => 1,
            Self::Dbt2 | Self::Dbt4 | Self::Dbt9 => -1,
            Self::Dbt3 | Self::Dbt5 | Self::Dbt7 => 0,
        }
    }

    /// The digit at the given coordinates. Outside the square the centre is
    /// returned.
    pub open spec fn at(x: int, y: int) -> Self {
        if x == 0 && y == 1 {
            Self::Dbt1
        } else if x == -1 && y == -1 {
            Self::Dbt2
        } else if x == 1 && y == 0 {
            Self::Dbt3
        } else if x == 1 && y == -1 {
            Self::Dbt4
        } else if x == -1 && y == 1 {
            Self::Dbt6
        } else if x == -1 && y == 0 {
            Self::Dbt7
        } else if x == 1 && y == 1 {
            Self::Dbt8
        } else if x == 0 && y == -1 {
            Self::Dbt9
        } else {
            Self::Dbt5
        }
    }

    /// Every digit is the digit at its own coordinates, and both coordinates
    /// are -1, 0 or 1.
    pub proof fn lemma_at_coordinates(self)
        ensures
            Self::at(self.x(), self.y()) == self,
            -1 <= self.x() <= 1,
            -1 <= self.y() <= 1,
    {
    }

    /// Whether this is the centre, the digit of value zero.
    pub open spec fn is_center(self) -> bool {
        self == Self::Dbt5
    }

    /// The point reflection through the centre.
    pub open spec fn spec_negate(self) -> Self {
        Self::at(-self.x(), -self.y())
    }

    /// The additive inverse: the cell on the other side of the centre.
    #[verifier::when_used_as_spec(spec_negate)]
    pub fn negate(self) -> (r: Self)
        ensures
            r == self.spec_negate(),
    {
        match self {
            Self::Dbt1 => Self::Dbt9,
            Self::Dbt2 => Self::Dbt8,
            Self::Dbt3 => Self::Dbt7,
            Self::Dbt4 => Self::Dbt6,
            Self::Dbt5 => Self::Dbt5,
            Self::Dbt6 => Self::Dbt4,
            Self::Dbt7 => Self::Dbt3,
            Self::Dbt8 => Self::Dbt2,
            Self::Dbt9 => Self::Dbt1,
        }
    }

    /// The mirror image across the horizontal axis: `(x, y)` becomes `(x, -y)`.
    pub open spec fn spec_flip_front_back(&self) -> Self {
        Self::at(self.x(), -self.y())
    }

    /// Mirrors the square across the horizontal axis, so that front and back
    /// change places:
    /// 
    /// ```text
    /// 6 1 8      2 9 4
    /// 7 5 3  =>  7 5 3
    /// 2 9 4      6 1 8
    /// ```
    #[verifier::when_used_as_spec(spec_flip_front_back)]
    pub fn flip_front_back(&self) -> (r: Self)
        ensures
            r == self.spec_flip_front_back(),
    {
        match self {
            Self::Dbt1 => Self::Dbt9,
            Self::Dbt2 => Self::Dbt6,
            Self::Dbt3 => Self::Dbt3,
            Self::Dbt4 => Self::Dbt8,
            Self::Dbt5 => Self::Dbt5,
            Self::Dbt6 => Self::Dbt2,
            Self::Dbt7 => Self::Dbt7,
            Self::Dbt8 => Self::Dbt4,
            Self::Dbt9 => Self::Dbt1,
        }
    }

    /// The mirror image across the vertical axis: `(x, y)` becomes `(-x, y)`.
    pub open spec fn spec_flip_left_right(&self) -> Self {
        Self::at(-self.x(), self.y())
    }

    /// Mirrors the square across the vertical axis, so that left and right
    /// change places:
    /// 
    /// ```text
    /// 6 1 8      8 1 6
    /// 7 5 3  =>  3 5 7
    /// 2 9 4      4 9 2
    /// ```
    #[verifier::when_used_as_spec(spec_flip_left_right)]
    pub fn flip_left_right(&self) -> (r: Self)
        ensures
            r == self.spec_flip_left_right(),
    {
        match self {
            Self::Dbt1 => Self::Dbt1,
            Self::Dbt2 => Self::Dbt4,
            Self::Dbt3 => Self::Dbt7,
            Self::Dbt4 => Self::Dbt2,
            Self::Dbt5 => Self::Dbt5,
            Self::Dbt6 => Self::Dbt8,
            Self::Dbt7 => Self::Dbt3,
            Self::Dbt8 => Self::Dbt6,
            Self::Dbt9 => Self::Dbt9,
        }
    }

    /// The quarter turn clockwise: `(x, y)` becomes `(y, -x)`.
    pub open spec fn spec_rotate3(&self) -> Self {
        Self::at(self.y(), -self.x())
    }

    /// A quarter turn clockwise, which takes `1` to `3`.
    #[verifier::when_used_as_spec(spec_rotate3)]
    pub fn rotate3(&self) -> (r: Self)
        ensures
            r == self.spec_rotate3(),
    {
        match self {
            Self::Dbt1 => Self::Dbt3,
            Self::Dbt2 => Self::Dbt6,
            Self::Dbt3 => Self::Dbt9,
            Self::Dbt4 => Self::Dbt2,
            Self::Dbt5 => Self::Dbt5,
            Self::Dbt6 => Self::Dbt8,
            Self::Dbt7 => Self::Dbt1,
            Self::Dbt8 => Self::Dbt4,
            Self::Dbt9 => Self::Dbt7,
        }
    }

    /// The quarter turn anti-clockwise: `(x, y)` becomes `(-y, x)`.
    pub open spec fn spec_rotate7(&self) -> Self {
        Self::at(-self.y(), self.x())
    }

    /// A quarter turn anti-clockwise, which takes `1` to `7`.
    #[verifier::when_used_as_spec(spec_rotate7)]
    pub fn rotate7(&self) -> (r: Self)
        ensures
            r == self.spec_rotate7(),
    {
        match self {
            Self::Dbt1 => Self::Dbt7,
            Self::Dbt2 => Self::Dbt4,
            Self::Dbt3 => Self::Dbt1,
            Self::Dbt4 => Self::Dbt8,
            Self::Dbt5 => Self::Dbt5,
            Self::Dbt6 => Self::Dbt2,
            Self::Dbt7 => Self::Dbt9,
            Self::Dbt8 => Self::Dbt6,
            Self::Dbt9 => Self::Dbt3,
        }
    }

    /// The mirror image across the diagonal: `(x, y)` becomes `(y, x)`.
    pub open spec fn spec_flip_xy(&self) -> Self {
        Self::at(self.y(), self.x())
    }

    /// Mirrors the square across the diagonal through `2` and `8`, so that the
    /// two axes change places:
    /// 
    /// ```text
    /// 6 1 8      4 3 8
    /// 7 5 3  =>  9 5 1
    /// 2 9 4      2 7 6
    /// ```
    #[verifier::when_used_as_spec(spec_flip_xy)]
    pub fn flip_xy(&self) -> (r: Self)
        ensures
            r == self.spec_flip_xy(),
    {
        match self {
            Self::Dbt1 => Self::Dbt3,
            Self::Dbt2 => Self::Dbt2,
            Self::Dbt3 => Self::Dbt1,
            Self::Dbt4 => Self::Dbt6,
            Self::Dbt5 => Self::Dbt5,
            Self::Dbt6 => Self::Dbt4,
            Self::Dbt7 => Self::Dbt9,
            Self::Dbt8 => Self::Dbt8,
            Self::Dbt9 => Self::Dbt7,
        }
    }

    /// The vertical part and the horizontal part of a digit, in this order.
    pub open spec fn spec_split_yx(&self) -> DigitsPair {
        (Self::at(0, self.y()), Self::at(self.x(), 0))
    }

    /// Splits a digit into one on the vertical axis (`1`, `5` or `9`) and one on
    /// the horizontal axis (`7`, `5` or `3`) whose sum it is.
    #[verifier::when_used_as_spec(spec_split_yx)]
    pub fn split_yx(&self) -> (r: DigitsPair)
        ensures
            r == self.spec_split_yx(),
            r.0.x() == 0 && r.0.y() == self.y(),
            r.1.y() == 0 && r.1.x() == self.x(),
    {
        match self {
            Self::Dbt1 => (Self::Dbt1, Self::Dbt5),
            Self::Dbt2 => (Self::Dbt9, Self::Dbt7),
            Self::Dbt3 => (Self::Dbt5, Self::Dbt3),
            Self::Dbt4 => (Self::Dbt9, Self::Dbt3),
            Self::Dbt5 => (Self::Dbt5, Self::Dbt5),
            Self::Dbt6 => (Self::Dbt1, Self::Dbt7),
            Self::Dbt7 => (Self::Dbt5, Self::Dbt7),
            Self::Dbt8 => (Self::Dbt1, Self::Dbt3),
            Self::Dbt9 => (Self::Dbt9, Self::Dbt5),
        }
    }

    /// The sum of two digits as a carry and a digit: in each coordinate the sum
    /// is between -2 and 2, what goes beyond -1 and 1 is carried, and the rest
    /// stays.
    pub open spec fn spec_add(self, rhs: Self) -> DigitsPair {
        let sx = self.x() + rhs.x();
        let sy = self.y() + rhs.y();
        (
            Self::at(carry_of(sx), carry_of(sy)),
            Self::at(sx - 3 * carry_of(sx), sy - 3 * carry_of(sy)),
        )
    }

    /// Adds two digits. The result is `(carry, digit)` with
    /// `3 * carry + digit == self + rhs` in each coordinate.
    #[verifier::when_used_as_spec(spec_add)]
    pub fn add(self, rhs: Self) -> (r: DigitsPair)
        ensures
            r == self.spec_add(rhs),
            3 * r.0.x() + r.1.x() == self.x() + rhs.x(),
            3 * r.0.y() + r.1.y() == self.y() + rhs.y(),
    {
        match self {
            Self::Dbt1 => match rhs {
                Self::Dbt1 => (Self::Dbt1, Self::Dbt9),
                Self::Dbt2 => (Self::Dbt5, Self::Dbt7),
                Self::Dbt3 => (Self::Dbt5, Self::Dbt8),
                Self::Dbt4 => (Self::Dbt5, Self::Dbt3),
                Self::Dbt5 => (Self::Dbt5, Self::Dbt1),
                Self::Dbt6 => (Self::Dbt1, Self::Dbt2),
                Self::Dbt7 => (Self::Dbt5, Self::Dbt6),
                Self::Dbt8 => (Self::Dbt1, Self::Dbt4),
                Self::Dbt9 => (Self::Dbt5, Self::Dbt5),
            },
            Self::Dbt2 => match rhs {
                Self::Dbt1 => (Self::Dbt5, Self::Dbt7),
                Self::Dbt2 => (Self::Dbt2, Self::Dbt8),
                Self::Dbt3 => (Self::Dbt5, Self::Dbt9),
                Self::Dbt4 => (Self::Dbt9, Self::Dbt1),
                Self::Dbt5 => (Self::Dbt5, Self::Dbt2),
                Self::Dbt6 => (Self::Dbt7, Self::Dbt3),
                Self::Dbt7 => (Self::Dbt7, Self::Dbt4),
                Self::Dbt8 => (Self::Dbt5, Self::Dbt5),
                Self::Dbt9 => (Self::Dbt9, Self::Dbt6),
            },
            Self::Dbt3 => match rhs {
                Self::Dbt1 => (Self::Dbt5, Self::Dbt8),
                Self::Dbt2 => (Self::Dbt5, Self::Dbt9),
                Self::Dbt3 => (Self::Dbt3, Self::Dbt7),
                Self::Dbt4 => (Self::Dbt3, Self::Dbt2),
                Self::Dbt5 => (Self::Dbt5, Self::Dbt3),
                Self::Dbt6 => (Self::Dbt5, Self::Dbt1),
                Self::Dbt7 => (Self::Dbt5, Self::Dbt5),
                Self::Dbt8 => (Self::Dbt3, Self::Dbt6),
                Self::Dbt9 => (Self::Dbt5, Self::Dbt4),
            },
            Self::Dbt4 => match rhs {
                Self::Dbt1 => (Self::Dbt5, Self::Dbt3),
                Self::Dbt2 => (Self::Dbt9, Self::Dbt1),
                Self::Dbt3 => (Self::Dbt3, Self::Dbt2),
                Self::Dbt4 => (Self::Dbt4, Self::Dbt6),
                Self::Dbt5 => (Self::Dbt5, Self::Dbt4),
                Self::Dbt6 => (Self::Dbt5, Self::Dbt5),
                Self::Dbt7 => (Self::Dbt5, Self::Dbt9),
                Self::Dbt8 => (Self::Dbt3, Self::Dbt7),
                Self::Dbt9 => (Self::Dbt9, Self::Dbt8),
            },
            Self::Dbt6 => match rhs {
                Self::Dbt1 => (Self::Dbt1, Self::Dbt2),
                Self::Dbt2 => (Self::Dbt7, Self::Dbt3),
                Self::Dbt3 => (Self::Dbt5, Self::Dbt1),
                Self::Dbt4 => (Self::Dbt5, Self::Dbt5),
                Self::Dbt5 => (Self::Dbt5, Self::Dbt6),
                Self::Dbt6 => (Self::Dbt6, Self::Dbt4),
                Self::Dbt7 => (Self::Dbt7, Self::Dbt8),
                Self::Dbt8 => (Self::Dbt1, Self::Dbt9),
                Self::Dbt9 => (Self::Dbt5, Self::Dbt7),
            },
            Self::Dbt7 => match rhs {
                Self::Dbt1 => (Self::Dbt5, Self::Dbt6),
                Self::Dbt2 => (Self::Dbt7, Self::Dbt4),
                Self::Dbt3 => (Self::Dbt5, Self::Dbt5),
                Self::Dbt4 => (Self::Dbt5, Self::Dbt9),
                Self::Dbt5 => (Self::Dbt5, Self::Dbt7),
                Self::Dbt6 => (Self::Dbt7, Self::Dbt8),
                Self::Dbt7 => (Self::Dbt7, Self::Dbt3),
                Self::Dbt8 => (Self::Dbt5, Self::Dbt1),
                Self::Dbt9 => (Self::Dbt5, Self::Dbt2),
            },
            Self::Dbt8 => match rhs {
                Self::Dbt1 => (Self::Dbt1, Self::Dbt4),
                Self::Dbt2 => (Self::Dbt5, Self::Dbt5),
                Self::Dbt3 => (Self::Dbt3, Self::Dbt6),
                Self::Dbt4 => (Self::Dbt3, Self::Dbt7),
                Self::Dbt5 => (Self::Dbt5, Self::Dbt8),
                Self::Dbt6 => (Self::Dbt1, Self::Dbt9),
                Self::Dbt7 => (Self::Dbt5, Self::Dbt1),
                Self::Dbt8 => (Self::Dbt8, Self::Dbt2),
                Self::Dbt9 => (Self::Dbt5, Self::Dbt3),
            },
            Self::Dbt9 => match rhs {
                Self::Dbt1 => (Self::Dbt5, Self::Dbt5),
                Self::Dbt2 => (Self::Dbt9, Self::Dbt6),
                Self::Dbt3 => (Self::Dbt5, Self::Dbt4),
                Self::Dbt4 => (Self::Dbt9, Self::Dbt8),
                Self::Dbt5 => (Self::Dbt5, Self::Dbt9),
                Self::Dbt6 => (Self::Dbt5, Self::Dbt7),
                Self::Dbt7 => (Self::Dbt5, Self::Dbt2),
                Self::Dbt8 => (Self::Dbt5, Self::Dbt3),
                Self::Dbt9 => (Self::Dbt9, Self::Dbt1),
            },
            Self::Dbt5 => (Self::Dbt5, rhs),
        }
    }

    /// The product of two digits as a carry and a digit. Digits multiply as
    /// complex numbers do, with `1` as the unit and `3` as the imaginary unit:
    /// `(x1, y1) * (x2, y2)` is `(y1 * x2 + x1 * y2, y1 * y2 - x1 * x2)`, split
    /// into carry and digit as a sum is.
    ///
    /// One entry is irregular: `8 * 1` carries `1`, while `1 * 8` carries
    /// nothing. Quotients computed by [`DualBalancedTernary::div`] depend on it,
    /// so it is part of the table.
    ///
    /// [`DualBalancedTernary::div`]: crate::primes::DualBalancedTernary::div
    pub open spec fn spec_mul(self, rhs: Self) -> DigitsPair {
        if self == Self::Dbt8 && rhs == Self::Dbt1 {
            (Self::Dbt1, Self::Dbt8)
        } else {
            let px = times(self.y(), rhs.x()) + times(self.x(), rhs.y());
            let py = times(self.y(), rhs.y()) - times(self.x(), rhs.x());
            (
                Self::at(carry_of(px), carry_of(py)),
                Self::at(px - 3 * carry_of(px), py - 3 * carry_of(py)),
            )
        }
    }

    /// Multiplying by a digit on an axis moves the other digit and carries
    /// nothing: `1` keeps it, `3` turns it a quarter clockwise, `7` a quarter
    /// anti-clockwise, `9` negates it, and the centre gives the centre.
    pub proof fn lemma_mul_by_axis(self, rhs: Self)
        ensures
            self == Self::Dbt1 ==> self.spec_mul(rhs) == (Self::Dbt5, rhs),
            self == Self::Dbt3 ==> self.spec_mul(rhs) == (Self::Dbt5, rhs.spec_rotate3()),
            self == Self::Dbt5 ==> self.spec_mul(rhs) == (Self::Dbt5, Self::Dbt5),
            self == Self::Dbt7 ==> self.spec_mul(rhs) == (Self::Dbt5, rhs.spec_rotate7()),
            self == Self::Dbt9 ==> self.spec_mul(rhs) == (Self::Dbt5, rhs.spec_negate()),
    {
        match rhs {
            Self::Dbt1 => {},
            Self::Dbt2 => {},
            Self::Dbt3 => {},
            Self::Dbt4 => {},
            Self::Dbt5 => {},
            Self::Dbt6 => {},
            Self::Dbt7 => {},
            Self::Dbt8 => {},
            Self::Dbt9 => {},
        }
    }

    /// Multiplies two digits. The result is `(carry, digit)`.
    ///
    /// Multiplying by `1` keeps the other digit, by `3` and `7` turns it a
    /// quarter clockwise and anti-clockwise, by `9` negates it, and by `5`
    /// gives the centre.
    #[verifier::when_used_as_spec(spec_mul)]
    pub fn mul(self, rhs: Self) -> (r: DigitsPair)
        ensures
            r == self.spec_mul(rhs),
    {
        proof {
            self.lemma_mul_by_axis(rhs);
        }
        match self {
            Self::Dbt1 => (Self::Dbt5, rhs),
            Self::Dbt3 => (Self::Dbt5, rhs.rotate3()),
            Self::Dbt5 => (Self::Dbt5, Self::Dbt5),
            Self::Dbt7 => (Self::Dbt5, rhs.rotate7()),
            Self::Dbt9 => (Self::Dbt5, rhs.negate()),
            Self::Dbt2 => match rhs {
                Self::Dbt1 => (Self::Dbt5, Self::Dbt2),
                Self::Dbt2 => (Self::Dbt3, Self::Dbt7),
                Self::Dbt3 => (Self::Dbt5, Self::Dbt6),
                Self::Dbt4 => (Self::Dbt1, Self::Dbt9),
                Self::Dbt5 => (Self::Dbt5, Self::Dbt5),
                Self::Dbt6 => (Self::Dbt9, Self::Dbt1),
                Self::Dbt7 => (Self::Dbt5, Self::Dbt4),
                Self::Dbt8 => (Self::Dbt7, Self::Dbt3),
                Self::Dbt9 => (Self::Dbt5, Self::Dbt8),
            },
            Self::Dbt4 => match rhs {
                Self::Dbt1 => (Self::Dbt5, Self::Dbt4),
                Self::Dbt2 => (Self::Dbt1, Self::Dbt9),
                Self::Dbt3 => (Self::Dbt5, Self::Dbt2),
                Self::Dbt4 => (Self::Dbt7, Self::Dbt3),
                Self::Dbt5 => (Self::Dbt5, Self::Dbt5),
                Self::Dbt6 => (Self::Dbt3, Self::Dbt7),
                Self::Dbt7 => (Self::Dbt5, Self::Dbt8),
                Self::Dbt8 => (Self::Dbt9, Self::Dbt1),
                Self::Dbt9 => (Self::Dbt5, Self::Dbt6),
            },
            Self::Dbt6 => match rhs {
                Self::Dbt1 => (Self::Dbt5, Self::Dbt6),
                Self::Dbt2 => (Self::Dbt9, Self::Dbt1),
                Self::Dbt3 => (Self::Dbt5, Self::Dbt8),
                Self::Dbt4 => (Self::Dbt3, Self::Dbt7),
                Self::Dbt5 => (Self::Dbt5, Self::Dbt5),
                Self::Dbt6 => (Self::Dbt7, Self::Dbt3),
                Self::Dbt7 => (Self::Dbt5, Self::Dbt2),
                Self::Dbt8 => (Self::Dbt1, Self::Dbt9),
                Self::Dbt9 => (Self::Dbt5, Self::Dbt4),
            },
            Self::Dbt8 => match rhs {
                Self::Dbt1 => (Self::Dbt1, Self::Dbt8),
                Self::Dbt2 => (Self::Dbt7, Self::Dbt3),
                Self::Dbt3 => (Self::Dbt5, Self::Dbt4),
                Self::Dbt4 => (Self::Dbt9, Self::Dbt1),
                Self::Dbt5 => (Self::Dbt5, Self::Dbt5),
                Self::Dbt6 => (Self::Dbt1, Self::Dbt9),
                Self::Dbt7 => (Self::Dbt5, Self::Dbt6),
                Self::Dbt8 => (Self::Dbt3, Self::Dbt7),
                Self::Dbt9 => (Self::Dbt5, Self::Dbt2),
            },
        }
    }

    /// The digit's code, between 1 and 9: the number it is written with.
    pub open spec fn spec_to_u8(self) -> u8 {
        match self {
            Self::Dbt1 => 1,
            Self::Dbt2 => 2,
            Self::Dbt3 => 3,
            Self::Dbt4 => 4,
            Self::Dbt5 => 5,
            Self::Dbt6 => 6,
            Self::Dbt7 => 7,
            Self::Dbt8 => 8,
            Self::Dbt9 => 9,
        }
    }

    /// The digit's code, between 1 and 9.
    #[verifier::when_used_as_spec(spec_to_u8)]
    pub fn to_u8(self) -> (r: u8)
        ensures
            r == self.spec_to_u8(),
            1 <= r <= 9,
    {
        match self {
            Self::Dbt1 => 1,
            Self::Dbt2 => 2,
            Self::Dbt3 => 3,
            Self::Dbt4 => 4,
            Self::Dbt5 => 5,
            Self::Dbt6 => 6,
            Self::Dbt7 => 7,
            Self::Dbt8 => 8,
            Self::Dbt9 => 9,
        }
    }

    /// The digit with the given code, where there is one.
    pub open spec fn spec_from_u8(code: u8) -> Result<Self, DigitError> {
        if code == 1 {
            Ok(Self::Dbt1)
        } else if code == 2 {
            Ok(Self::Dbt2)
        } else if code == 3 {
            Ok(Self::Dbt3)
        } else if code == 4 {
            Ok(Self::Dbt4)
        } else if code == 5 {
            Ok(Self::Dbt5)
        } else if code == 6 {
            Ok(Self::Dbt6)
        } else if code == 7 {
            Ok(Self::Dbt7)
        } else if code == 8 {
            Ok(Self::Dbt8)
        } else if code == 9 {
            Ok(Self::Dbt9)
        } else {
            Err(DigitError::UnknownCode(code))
        }
    }

    /// The digit with the given code. A code outside 1 to 9 is refused and
    /// handed back in the error.
    #[verifier::when_used_as_spec(spec_from_u8)]
    pub fn from_u8(code: u8) -> (r: Result<Self, DigitError>)
        ensures
            r == Self::spec_from_u8(code),
            r is Ok <==> 1 <= code <= 9,
            r is Ok ==> r->Ok_0.spec_to_u8() == code,
    {
        match code {
            1 => Ok(Self::Dbt1),
            2 => Ok(Self::Dbt2),
            3 => Ok(Self::Dbt3),
            4 => Ok(Self::Dbt4),
            5 => Ok(Self::Dbt5),
            6 => Ok(Self::Dbt6),
            7 => Ok(Self::Dbt7),
            8 => Ok(Self::Dbt8),
            9 => Ok(Self::Dbt9),
            _ => Err(DigitError::UnknownCode(code)),
        }
    }

    /// The character the digit is written with, between `'1'` and `'9'`.
    pub open spec fn spec_to_char(self) -> char {
        match self {
            Self::Dbt1 => '1',
            Self::Dbt2 => '2',
            Self::Dbt3 => '3',
            Self::Dbt4 => '4',
            Self::Dbt5 => '5',
            Self::Dbt6 => '6',
            Self::Dbt7 => '7',
            Self::Dbt8 => '8',
            Self::Dbt9 => '9',
        }
    }

    /// The character the digit is written with.
    #[verifier::when_used_as_spec(spec_to_char)]
    pub fn to_char(self) -> (r: char)
        ensures
            r == self.spec_to_char(),
    {
        match self {
            Self::Dbt1 => '1',
            Self::Dbt2 => '2',
            Self::Dbt3 => '3',
            Self::Dbt4 => '4',
            Self::Dbt5 => '5',
            Self::Dbt6 => '6',
            Self::Dbt7 => '7',
            Self::Dbt8 => '8',
            Self::Dbt9 => '9',
        }
    }

    /// The digit written with the given character, where there is one.
    pub open spec fn spec_from_char(c: char) -> Result<Self, DigitError> {
        if c == '1' {
            Ok(Self::Dbt1)
        } else if c == '2' {
            Ok(Self::Dbt2)
        } else if c == '3' {
            Ok(Self::Dbt3)
        } else if c == '4' {
            Ok(Self::Dbt4)
        } else if c == '5' {
            Ok(Self::Dbt5)
        } else if c == '6' {
            Ok(Self::Dbt6)
        } else if c == '7' {
            Ok(Self::Dbt7)
        } else if c == '8' {
            Ok(Self::Dbt8)
        } else if c == '9' {
            Ok(Self::Dbt9)
        } else {
            Err(DigitError::InvalidCharacter(c))
        }
    }

    /// The digit written with the given character. Any character but `'1'` to
    /// `'9'` is refused and handed back in the error.
    #[verifier::when_used_as_spec(spec_from_char)]
    pub fn from_char(c: char) -> (r: Result<Self, DigitError>)
        ensures
            r == Self::spec_from_char(c),
            r is Ok ==> r->Ok_0.spec_to_char() == c,
    {
        match c {
            '1' => Ok(Self::Dbt1),
            '2' => Ok(Self::Dbt2),
            '3' => Ok(Self::Dbt3),
            '4' => Ok(Self::Dbt4),
            '5' => Ok(Self::Dbt5),
            '6' => Ok(Self::Dbt6),
            '7' => Ok(Self::Dbt7),
            '8' => Ok(Self::Dbt8),
            '9' => Ok(Self::Dbt9),
            _ => Err(DigitError::InvalidCharacter(c)),
        }
    }

    /// The digit that a pair of coordinates is read as, where both are -1, 0
    /// or 1. In the right-hand column the vertical coordinate counts downwards:
    /// `(1, -1)` is read as `8` and `(1, 1)` as `4`.
    pub open spec fn spec_from_coordinates(value: (i64, i64)) -> Result<Self, DigitError> {
        let (x, y) = value;
        if x < -1 || x > 1 {
            Err(DigitError::UnexpectedX(x))
        } else if y < -1 || y > 1 {
            Err(DigitError::UnexpectedY(y))
        } else if x == 1 {
            Ok(Self::at(1, -y))
        } else {
            Ok(Self::at(x as int, y as int))
        }
    }

    /// Reads a pair `(x, y)` of coordinates as a digit. A horizontal
    /// coordinate outside -1 to 1 is refused first, then a vertical one.
    #[verifier::when_used_as_spec(spec_from_coordinates)]
    pub fn from_coordinates(value: (i64, i64)) -> (r: Result<Self, DigitError>)
        ensures
            r == Self::spec_from_coordinates(value),
    {
        let (x, y) = value;
        match x {
            -1 => match y {
                -1 => Ok(Self::Dbt2),
                0 => Ok(Self::Dbt7),
                1 => Ok(Self::Dbt6),
                _ => Err(DigitError::UnexpectedY(y)),
            },
            0 => match y {
                -1 => Ok(Self::Dbt9),
                0 => Ok(Self::Dbt5),
                1 => Ok(Self::Dbt1),
                _ => Err(DigitError::UnexpectedY(y)),
            },
            1 => match y {
                -1 => Ok(Self::Dbt8),
                0 => Ok(Self::Dbt3),
                1 => Ok(Self::Dbt4),
                _ => Err(DigitError::UnexpectedY(y)),
            },
            _ => Err(DigitError::UnexpectedX(x)),
        }
    }

    /// The vector from the centre to the digit, as `(x, y)`.
    pub fn vector(self) -> (r: (i8, i8))
        ensures
            r.0 == self.x(),
            r.1 == self.y(),
    {
        match self {
            Self::Dbt1 => (0, 1),
            Self::Dbt2 => (-1, -1),
            Self::Dbt3 => (1, 0),
            Self::Dbt4 => (1, -1),
            Self::Dbt5 => (0, 0),
            Self::Dbt6 => (-1, 1),
            Self::Dbt7 => (-1, 0),
            Self::Dbt8 => (1, 1),
            Self::Dbt9 => (0, -1),
        }
    }
}

} // verus!
