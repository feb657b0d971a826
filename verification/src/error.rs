//! What can go wrong: every failure is reported to the caller as a value.
use vstd::prelude::*;

verus! {

/// A value that does not stand for a digit.
#[derive(Debug, Copy, Clone, PartialEq, Eq, Structural)]
pub enum DigitError {
    /// The code is not between 1 and 9.
    UnknownCode(u8),
    /// The character is not between `'1'` and `'9'`.
    InvalidCharacter(char),
    /// The horizontal coordinate is not -1, 0 or 1.
    UnexpectedX(i64),
    /// The vertical coordinate is not -1, 0 or 1.
    UnexpectedY(i64),
}

/// A text that is not a number.
#[derive(Debug, Copy, Clone, PartialEq, Eq, Structural)]
pub enum ParseError {
    /// The text does not start with `&`.
    MissingMarker,
    /// Nothing follows the `&`.
    EmptyBody,
    /// There is more than one `.`.
    MultipleSeparators,
    /// The character is neither a digit between `'1'` and `'9'` nor the
    /// separator.
    InvalidDigit(char),
}

/// A number that has no buffer, or a buffer that holds no number.
#[derive(Debug, Copy, Clone, PartialEq, Eq, Structural)]
pub enum CodecError {
    /// The integral part has this many digits, which is more than the 255 that
    /// the length byte can count.
    IntegralTooLong(usize),
    /// The buffer is empty: not even the length byte is there.
    Empty,
    /// The buffer ends before the integral digits that its length byte
    /// announces.
    Truncated,
    /// The half byte is not between 1 and 9.
    InvalidNibble(u8),
}

/// Digits that are no expansion of a real number in base 3.
#[derive(Debug, Copy, Clone, PartialEq, Eq, Structural)]
pub enum ExpansionError {
    /// The digit is greater than 2.
    UnexpectedCarry(u8),
}

/// Operands that a division does not accept.
#[derive(Debug, Copy, Clone, PartialEq, Eq, Structural)]
pub enum ArithmeticError {
    /// The divisor is zero.
    DivisionByZero,
    /// An operand of a division along one axis has a digit other than `1`, `5`
    /// and `9`.
    NotLinear,
}

} // verus!
