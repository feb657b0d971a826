//! The packed form of a number: a length byte, then the digits of the integral
//! part and those of the fractional part, two to the byte.
//!
//! ```text
//! [integral length] [integral digits, high half first] [fractional digits]
//! ```
//!
//! A half byte holds the code of a digit, 1 to 9. Where a part has an odd
//! number of digits, the low half of its last byte holds 5.
use crate::digit::DualBalancedTernaryDigit;
use crate::error::CodecError;
use crate::model::{lemma_strip_tail, no_empty_tail, strip_tail, TernaryView};
use crate::prefix::{lemma_prefix_len_is, prefix_len};
use crate::primes::DualBalancedTernary;
use vstd::prelude::*;

verus! {

/// Whether a half byte is the code of a digit.
pub open spec fn valid_code(code: u8) -> bool {
    1 <= code <= 9
}

/// The digit with the given code; the centre for a code that is none.
pub open spec fn digit_of_code(code: u8) -> DualBalancedTernaryDigit {
    match DualBalancedTernaryDigit::spec_from_u8(code) {
        Ok(d) => d,
        Err(_) => DualBalancedTernaryDigit::Dbt5,
    }
}

/// The byte that holds two digits, the first in its high half.
pub open spec fn pack_byte(high: DualBalancedTernaryDigit, low: DualBalancedTernaryDigit) -> u8 {
    (16 * high.spec_to_u8() + low.spec_to_u8()) as u8
}

/// The digits two to the byte, in order. An odd number of digits is filled
/// up with the centre.
pub open spec fn pack(digits: Seq<DualBalancedTernaryDigit>) -> Seq<u8> {
    Seq::new(
        ((digits.len() + 1) / 2) as nat,
        |k: int|
            pack_byte(
                digits[2 * k],
                if 2 * k + 1 < digits.len() {
                    digits[2 * k + 1]
                } else {
                    DualBalancedTernaryDigit::Dbt5
                },
            ),
    )
}

/// The half bytes of a sequence of bytes, the high half of each byte before
/// its low half.
pub open spec fn unpack(bytes: Seq<u8>) -> Seq<u8> {
    Seq::new(
        2 * bytes.len(),
        |k: int|
            if k % 2 == 0 {
                (bytes[k / 2] / 16) as u8
            } else {
                (bytes[k / 2] % 16) as u8
            },
    )
}

/// The digits with the given codes.
pub open spec fn digits_of_codes(codes: Seq<u8>) -> Seq<DualBalancedTernaryDigit> {
    codes.map_values(|c: u8| digit_of_code(c))
}

impl TernaryView {
    /// The packed form of the number, which is that of its canonical form.
    /// There is none where the canonical form has 256 integral digits or
    /// more.
    pub open spec fn encode(self) -> Result<Seq<u8>, CodecError> {
        let v = self.strip_empty_tails();
        if v.integral.len() >= 256 {
            Err(CodecError::IntegralTooLong(v.integral.len() as usize))
        } else {
            Ok(seq![v.integral.len() as u8] + pack(v.integral) + pack(v.fractional))
        }
    }

    /// The number that a buffer holds, in canonical form. The first byte
    /// counts the integral digits; they fill half as many bytes, rounded up,
    /// and every half byte of these is read as an integral digit. What
    /// follows is read as the fractional digits. The first half byte, in the
    /// order of the buffer, that is not the code of a digit is refused.
    pub open spec fn decode(buf: Seq<u8>) -> Result<Self, CodecError> {
        if buf.len() == 0 {
            Err(CodecError::Empty)
        } else {
            let bytes = (buf[0] + 1) / 2;
            if buf.len() < bytes + 1 {
                Err(CodecError::Truncated)
            } else {
                let codes = unpack(buf.skip(1));
                let good = prefix_len(codes, |c: u8| valid_code(c));
                if good < codes.len() {
                    Err(CodecError::InvalidNibble(codes[good]))
                } else {
                    Ok(
                        TernaryView {
                            integral: digits_of_codes(codes.take(2 * bytes)),
                            fractional: digits_of_codes(codes.skip(2 * bytes)),
                        }.strip_empty_tails(),
                    )
                }
            }
        }
    }
}

/// The digits filled up with the centre to an even number.
pub open spec fn even_out(digits: Seq<DualBalancedTernaryDigit>) -> Seq<DualBalancedTernaryDigit> {
    if digits.len() % 2 == 0 {
        digits
    } else {
        digits.push(DualBalancedTernaryDigit::Dbt5)
    }
}

/// A digit is found again from its code.
pub proof fn lemma_code_of_digit(d: DualBalancedTernaryDigit)
    ensures
        valid_code(d.spec_to_u8()),
        digit_of_code(d.spec_to_u8()) == d,
        DualBalancedTernaryDigit::spec_from_u8(d.spec_to_u8()) == Ok::<
            DualBalancedTernaryDigit,
            crate::error::DigitError,
        >(d),
{
}

/// The half bytes of the packed form are the codes of the digits, with 5
/// behind them where their number is odd; read as digits they are the digits
/// filled up to an even number.
#[verifier::rlimit(40)]
pub proof fn lemma_unpack_pack(digits: Seq<DualBalancedTernaryDigit>)
    ensures
        unpack(pack(digits)).len() == even_out(digits).len(),
        forall|k: int|
            0 <= k < even_out(digits).len() ==> valid_code(#[trigger] unpack(pack(digits))[k]),
        digits_of_codes(unpack(pack(digits))) == even_out(digits),
{
    let codes = unpack(pack(digits));
    let filled = even_out(digits);
    assert forall|k: int| 0 <= k < filled.len() implies valid_code(#[trigger] codes[k])
        && digit_of_code(codes[k]) == filled[k] by {
        let high = digits[2 * (k / 2)];
        let low = if 2 * (k / 2) + 1 < digits.len() {
            digits[2 * (k / 2) + 1]
        } else {
            DualBalancedTernaryDigit::Dbt5
        };
        lemma_code_of_digit(high);
        lemma_code_of_digit(low);
        assert(pack(digits)[k / 2] == pack_byte(high, low));
        assert(filled[k] == if k % 2 == 0 {
            high
        } else {
            low
        });
    }
    assert(digits_of_codes(codes) =~= filled);
}

/// Stripping undoes the filling up of a sequence that ends in no centre
/// digit.
pub proof fn lemma_strip_even_out(digits: Seq<DualBalancedTernaryDigit>)
    requires
        no_empty_tail(digits),
    ensures
        strip_tail(even_out(digits)) == digits,
{
    lemma_strip_tail(digits);
    if digits.len() % 2 != 0 {
        assert(digits.push(DualBalancedTernaryDigit::Dbt5).drop_last() == digits);
    }
}

/// The half bytes of two sequences of bytes, one after the other, are those
/// of the first followed by those of the second.
pub proof fn lemma_unpack_concat(a: Seq<u8>, b: Seq<u8>)
    ensures
        unpack(a + b) == unpack(a) + unpack(b),
{
    let whole = unpack(a + b);
    let parts = unpack(a) + unpack(b);
    assert(whole.len() == parts.len());
    assert forall|k: int| 0 <= k < whole.len() implies whole[k] == parts[k] by {
        if k < 2 * a.len() {
            assert((a + b)[k / 2] == a[k / 2]);
        } else {
            assert((a + b)[k / 2] == b[(k - 2 * a.len()) / 2]);
            assert((k - 2 * a.len()) % 2 == k % 2);
        }
    }
    assert(whole =~= parts);
}

/// A buffer made of a length byte and two packed sequences of digits that end
/// in no centre digit, the first of the announced length, holds the number
/// with these digits.
#[verifier::rlimit(40)]
pub proof fn lemma_decode_packed(
    integral: Seq<DualBalancedTernaryDigit>,
    fractional: Seq<DualBalancedTernaryDigit>,
)
    requires
        integral.len() < 256,
        no_empty_tail(integral),
        no_empty_tail(fractional),
    ensures
        TernaryView::decode(seq![integral.len() as u8] + pack(integral) + pack(fractional)) == Ok::<
            TernaryView,
            CodecError,
        >(TernaryView { integral, fractional }),
{
    let buf = seq![integral.len() as u8] + pack(integral) + pack(fractional);
    let bytes = pack(integral).len() as int;
    let head = unpack(pack(integral));
    let tail = unpack(pack(fractional));
    let codes = unpack(buf.skip(1));
    assert(buf[0] == integral.len());
    assert((buf[0] + 1) / 2 == bytes);
    assert(buf.skip(1) =~= pack(integral) + pack(fractional));
    lemma_unpack_concat(pack(integral), pack(fractional));
    assert(codes == head + tail);
    lemma_unpack_pack(integral);
    lemma_unpack_pack(fractional);
    assert(head.len() == 2 * bytes);
    assert(codes.take(2 * bytes) =~= head);
    assert(codes.skip(2 * bytes) =~= tail);
    assert forall|k: int| 0 <= k < codes.len() implies valid_code(#[trigger] codes[k]) by {
        if k < head.len() {
            assert(codes[k] == head[k]);
        } else {
            assert(codes[k] == tail[k - head.len()]);
        }
    }
    lemma_prefix_len_is(codes, |c: u8| valid_code(c), codes.len() as int);
    lemma_strip_even_out(integral);
    lemma_strip_even_out(fractional);
}

impl TernaryView {
    /// Decoding what was encoded gives the number back, in canonical form.
    /// Encoding succeeds where the canonical form has fewer than 256 integral
    /// digits.
    pub proof fn lemma_decode_encode(self)
        ensures
            self.encode() is Ok ==> Self::decode(self.encode()->Ok_0) == Ok::<Self, CodecError>(
                self.strip_empty_tails(),
            ),
            self.encode() is Ok <==> self.strip_empty_tails().integral.len() < 256,
    {
        if self.encode() is Ok {
            let v = self.strip_empty_tails();
            lemma_strip_tail(self.integral);
            lemma_strip_tail(self.fractional);
            lemma_decode_packed(v.integral, v.fractional);
        }
    }
}

/// Appends the packed form of the digits to the buffer.
fn pack_into(digits: &Vec<DualBalancedTernaryDigit>, buf: &mut Vec<u8>)
    ensures
        final(buf)@ == old(buf)@ + pack(digits@),
{
    let n = digits.len();
    let count = n / 2 + n % 2;
    let mut k: usize = 0;
    while k < count
        invariant
            n == digits.len(),
            count == (n + 1) / 2,
            k <= count,
            buf@ == old(buf)@ + pack(digits@).take(k as int),
        decreases count - k,
    {
        let high = digits[2 * k].to_u8();
        let low = if 2 * k + 1 < n {
            digits[2 * k + 1].to_u8()
        } else {
            5
        };
        buf.push(high * 16 + low);
        k += 1;
        assert(buf@ =~= old(buf)@ + pack(digits@).take(k as int));
    }
    assert(pack(digits@).take(count as int) == pack(digits@));
}

impl DualBalancedTernary {
    /// The packed form of the number: the count of the integral digits of its
    /// canonical form, then these digits and the fractional digits, two to the
    /// byte. Digits `5` at the ends do not show in it. A number with 256
    /// integral digits or more is refused.
    pub fn to_buffer(&self) -> (r: Result<Vec<u8>, CodecError>)
        ensures
            match r {
                Ok(buf) => self@.encode() == Ok::<Seq<u8>, CodecError>(buf@),
                Err(e) => self@.encode() == Err::<Seq<u8>, CodecError>(e),
            },
            r is Ok <==> self@.strip_empty_tails().integral.len() < 256,
    {
        let v = self.strip_empty_tails();
        let int_len = v.integral.len();
        if int_len < 256 {
            let mut buf: Vec<u8> = Vec::new();
            buf.push(int_len as u8);
            pack_into(&v.integral, &mut buf);
            pack_into(&v.fractional, &mut buf);
            assert(buf@ =~= seq![int_len as u8] + pack(v@.integral) + pack(v@.fractional));
            Ok(buf)
        } else {
            Err(CodecError::IntegralTooLong(int_len))
        }
    }

    /// The number that a buffer holds, in canonical form. An empty buffer is
    /// refused, then one that is shorter than its first byte announces, then
    /// the first half byte that is not between 1 and 9.
    #[verifier::rlimit(40)]
    pub fn from_buffer(buf: &Vec<u8>) -> (r: Result<DualBalancedTernary, CodecError>)
        ensures
            match r {
                Ok(x) => TernaryView::decode(buf@) == Ok::<TernaryView, CodecError>(x@),
                Err(e) => TernaryView::decode(buf@) == Err::<TernaryView, CodecError>(e),
            },
    {
        if buf.is_empty() {
            return Err(CodecError::Empty);
        }
        let int_range: usize = (buf[0] as usize + 1) / 2;
        if buf.len() < int_range + 1 {
            return Err(CodecError::Truncated);
        }
        let ghost codes = unpack(buf@.skip(1));
        let ghost valid = |c: u8| valid_code(c);
        let mut integral: Vec<DualBalancedTernaryDigit> = Vec::new();
        let mut fractional: Vec<DualBalancedTernaryDigit> = Vec::new();
        let mut idx: usize = 1;
        while idx < buf.len()
            invariant
                1 <= idx <= buf.len(),
                int_range == (buf@[0] + 1) / 2,
                int_range + 1 <= buf.len(),
                codes == unpack(buf@.skip(1)),
                valid == (|c: u8| valid_code(c)),
                forall|k: int| 0 <= k < 2 * (idx - 1) ==> valid(#[trigger] codes[k]),
                idx <= int_range + 1 ==> integral@ == digits_of_codes(codes.take(2 * (idx - 1)))
                    && fractional@.len() == 0,
                idx > int_range + 1 ==> integral@ == digits_of_codes(codes.take(2 * int_range))
                    && fractional@ == digits_of_codes(
                    codes.subrange(2 * int_range, 2 * (idx - 1)),
                ),
            decreases buf.len() - idx,
        {
            let x = buf[idx];
            let high = x / 16;
            let low = x % 16;
            assert(codes[2 * (idx - 1)] == high);
            assert(codes[2 * (idx - 1) + 1] == low);
            let d_high = match DualBalancedTernaryDigit::from_u8(high) {
                Ok(d) => d,
                Err(_) => {
                    proof {
                        lemma_prefix_len_is(codes, valid, 2 * (idx - 1));
                    }
                    return Err(CodecError::InvalidNibble(high));
                },
            };
            let d_low = match DualBalancedTernaryDigit::from_u8(low) {
                Ok(d) => d,
                Err(_) => {
                    proof {
                        lemma_prefix_len_is(codes, valid, 2 * (idx - 1) + 1);
                    }
                    return Err(CodecError::InvalidNibble(low));
                },
            };
            if idx < int_range + 1 {
                integral.push(d_high);
                integral.push(d_low);
                assert(integral@ =~= digits_of_codes(codes.take(2 * idx)));
            } else {
                fractional.push(d_high);
                fractional.push(d_low);
                assert(fractional@ =~= digits_of_codes(codes.subrange(2 * int_range, 2 * idx)));
            }
            idx += 1;
        }
        proof {
            lemma_prefix_len_is(codes, valid, codes.len() as int);
            assert(codes.subrange(2 * int_range, 2 * (idx - 1)) == codes.skip(2 * int_range));
            if idx <= int_range + 1 {
                assert(fractional@ =~= digits_of_codes(codes.skip(2 * int_range)));
            }
        }
        Ok(DualBalancedTernary { integral, fractional }.strip_empty_tails())
    }
}

} // verus!
