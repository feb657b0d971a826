//! The conversions of the standard library, for those who prefer them to the
//! methods that they call.
use crate::digit::DualBalancedTernaryDigit;
use crate::error::{CodecError, DigitError, ParseError};
use crate::model::TernaryView;
use crate::primes::DualBalancedTernary;
use vstd::prelude::*;

verus! {

impl From<DualBalancedTernaryDigit> for u8 {
    /// The code of the digit, as [`DualBalancedTernaryDigit::to_u8`] gives it.
    fn from(value: DualBalancedTernaryDigit) -> (r: u8) {
        value.to_u8()
    }
}

impl vstd::std_specs::convert::FromSpecImpl<DualBalancedTernaryDigit> for u8 {
    open spec fn obeys_from_spec() -> bool {
        true
    }

    open spec fn from_spec(value: DualBalancedTernaryDigit) -> u8 {
        value.spec_to_u8()
    }
}

impl TryFrom<u8> for DualBalancedTernaryDigit {
    type Error = DigitError;

    /// The digit with a code, as [`DualBalancedTernaryDigit::from_u8`] gives
    /// it.
    fn try_from(x: u8) -> (r: Result<Self, DigitError>)
        ensures
            r == Self::spec_from_u8(x),
    {
        DualBalancedTernaryDigit::from_u8(x)
    }
}

impl vstd::std_specs::convert::TryFromSpecImpl<u8> for DualBalancedTernaryDigit {
    open spec fn obeys_try_from_spec() -> bool {
        true
    }

    open spec fn try_from_spec(x: u8) -> Result<Self, DigitError> {
        Self::spec_from_u8(x)
    }
}

impl TryFrom<char> for DualBalancedTernaryDigit {
    type Error = DigitError;

    /// The digit written with a character, as
    /// [`DualBalancedTernaryDigit::from_char`] gives it.
    fn try_from(value: char) -> (r: Result<Self, DigitError>)
        ensures
            r == Self::spec_from_char(value),
    {
        DualBalancedTernaryDigit::from_char(value)
    }
}

impl vstd::std_specs::convert::TryFromSpecImpl<char> for DualBalancedTernaryDigit {
    open spec fn obeys_try_from_spec() -> bool {
        true
    }

    open spec fn try_from_spec(value: char) -> Result<Self, DigitError> {
        Self::spec_from_char(value)
    }
}

impl TryFrom<(i64, i64)> for DualBalancedTernaryDigit {
    type Error = DigitError;

    /// The digit that a pair of coordinates is read as, as
    /// [`DualBalancedTernaryDigit::from_coordinates`] gives it.
    fn try_from(value: (i64, i64)) -> (r: Result<Self, DigitError>)
        ensures
            r == Self::spec_from_coordinates(value),
    {
        DualBalancedTernaryDigit::from_coordinates(value)
    }
}

impl vstd::std_specs::convert::TryFromSpecImpl<(i64, i64)> for DualBalancedTernaryDigit {
    open spec fn obeys_try_from_spec() -> bool {
        true
    }

    open spec fn try_from_spec(value: (i64, i64)) -> Result<Self, DigitError> {
        Self::spec_from_coordinates(value)
    }
}

impl core::str::FromStr for DualBalancedTernary {
    type Err = ParseError;

    /// The number that a text holds, as [`DualBalancedTernary::from_str`]
    /// gives it.
    fn from_str(s: &str) -> (r: Result<Self, ParseError>)
        ensures
            match r {
                Ok(x) => TernaryView::parse(s@) == Ok::<TernaryView, ParseError>(x@),
                Err(e) => TernaryView::parse(s@) == Err::<TernaryView, ParseError>(e),
            },
    {
        DualBalancedTernary::from_str(s)
    }
}

impl TryFrom<&Vec<u8>> for DualBalancedTernary {
    type Error = CodecError;

    /// The number that a buffer holds, as
    /// [`DualBalancedTernary::from_buffer`] gives it.
    fn try_from(buf: &Vec<u8>) -> (r: Result<Self, CodecError>)
        ensures
            match r {
                Ok(x) => TernaryView::decode(buf@) == Ok::<TernaryView, CodecError>(x@),
                Err(e) => TernaryView::decode(buf@) == Err::<TernaryView, CodecError>(e),
            },
    {
        DualBalancedTernary::from_buffer(buf)
    }
}

impl vstd::std_specs::convert::TryFromSpecImpl<&Vec<u8>> for DualBalancedTernary {
    /// The result is described by its view, in the contract of `try_from`.
    open spec fn obeys_try_from_spec() -> bool {
        false
    }

    open spec fn try_from_spec(buf: &Vec<u8>) -> Result<Self, CodecError> {
        arbitrary()
    }
}

impl TryFrom<DualBalancedTernary> for Vec<u8> {
    type Error = CodecError;

    /// The packed form of a number, as [`DualBalancedTernary::to_buffer`]
    /// gives it.
    fn try_from(value: DualBalancedTernary) -> (r: Result<Self, CodecError>)
        ensures
            match r {
                Ok(buf) => value@.encode() == Ok::<Seq<u8>, CodecError>(buf@),
                Err(e) => value@.encode() == Err::<Seq<u8>, CodecError>(e),
            },
    {
        value.to_buffer()
    }
}

impl vstd::std_specs::convert::TryFromSpecImpl<DualBalancedTernary> for Vec<u8> {
    /// The result is described by its view, in the contract of `try_from`.
    open spec fn obeys_try_from_spec() -> bool {
        false
    }

    open spec fn try_from_spec(value: DualBalancedTernary) -> Result<Self, CodecError> {
        arbitrary()
    }
}

} // verus!
