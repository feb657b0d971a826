//! The written form of a number: `&`, the integral digits from the highest
//! place down, and, where there are fractional digits, `.` and these from the
//! radix point down. Zero is written `&5`.
use crate::digit::DualBalancedTernaryDigit;
use crate::error::ParseError;
use crate::model::{lemma_strip_tail, strip_tail, TernaryView};
use crate::prefix::{lemma_prefix_len_is, prefix_len};
use crate::primes::DualBalancedTernary;
use vstd::prelude::*;

verus! {

/// The characters of a text, one by one.
fn chars_of(s: &str) -> (r: Vec<char>)
    ensures
        r@ == s@,
{
    let mut r: Vec<char> = Vec::new();
    for c in it: s.chars()
        invariant
            it.seq() == s@,
            r@ == s@.take(it.index() as int),
    {
        r.push(c);
        assert(r@ =~= s@.take(it.index() + 1));
    }
    assert(s@.take(s@.len() as int) == s@);
    r
}

/// Whether a character is written for a digit.
pub open spec fn is_digit_char(c: char) -> bool {
    DualBalancedTernaryDigit::spec_from_char(c) is Ok
}

/// The digit written with a character; the centre for any other character.
pub open spec fn digit_of_char(c: char) -> DualBalancedTernaryDigit {
    match DualBalancedTernaryDigit::spec_from_char(c) {
        Ok(d) => d,
        Err(_) => DualBalancedTernaryDigit::Dbt5,
    }
}

/// The digits written with the characters, in order.
pub open spec fn digits_of_chars(chars: Seq<char>) -> Seq<DualBalancedTernaryDigit> {
    chars.map_values(|c: char| digit_of_char(c))
}

/// The characters that the digits are written with, in order.
pub open spec fn chars_of_digits(digits: Seq<DualBalancedTernaryDigit>) -> Seq<char> {
    digits.map_values(|d: DualBalancedTernaryDigit| d.spec_to_char())
}

impl TernaryView {
    /// The written form. The integral digits are written from the highest
    /// place down, the fractional digits from the radix point down; the point
    /// is left out where no fractional digit follows. The number without
    /// digits is written `&5`.
    pub open spec fn format(self) -> Seq<char> {
        if self.integral.len() == 0 && self.fractional.len() == 0 {
            seq!['&', '5']
        } else if self.fractional.len() == 0 {
            seq!['&'] + chars_of_digits(self.integral.reverse())
        } else {
            seq!['&'] + chars_of_digits(self.integral.reverse()) + seq!['.'] + chars_of_digits(
                self.fractional,
            )
        }
    }

    /// The number that a text is read as, in canonical form.
    ///
    /// The text starts with `&`, and something follows. What follows is read
    /// up to the first character that is no digit: where there is none, all of
    /// it is the integral part. Where that character is no `.`, it is refused.
    /// Behind the `.` a second `.` is refused, wherever it stands; then the
    /// first character that is no digit; what is left is the fractional
    /// part.
    pub open spec fn parse(text: Seq<char>) -> Result<Self, ParseError> {
        if text.len() == 0 || text[0] != '&' {
            Err(ParseError::MissingMarker)
        } else if text.len() == 1 {
            Err(ParseError::EmptyBody)
        } else {
            let body = text.skip(1);
            let stop = prefix_len(body, |c: char| is_digit_char(c));
            let integral = digits_of_chars(body.take(stop)).reverse();
            if stop == body.len() {
                Ok(TernaryView { integral, fractional: Seq::empty() }.strip_empty_tails())
            } else if body[stop] != '.' {
                Err(ParseError::InvalidDigit(body[stop]))
            } else {
                let tail = body.skip(stop + 1);
                let end = prefix_len(tail, |c: char| is_digit_char(c));
                if tail.contains('.') {
                    Err(ParseError::MultipleSeparators)
                } else if end < tail.len() {
                    Err(ParseError::InvalidDigit(tail[end]))
                } else {
                    Ok(
                        TernaryView {
                            integral,
                            fractional: digits_of_chars(tail),
                        }.strip_empty_tails(),
                    )
                }
            }
        }
    }
}

/// A digit is found again from the character it is written with, which is
/// not the separator.
pub proof fn lemma_char_of_digit(d: DualBalancedTernaryDigit)
    ensures
        is_digit_char(d.spec_to_char()),
        digit_of_char(d.spec_to_char()) == d,
        d.spec_to_char() != '.',
        d.spec_to_char() != '&',
{
}

/// The characters that digits are written with are all digits' characters,
/// none is the separator, and read again they give the digits.
pub proof fn lemma_chars_of_digits(digits: Seq<DualBalancedTernaryDigit>)
    ensures
        chars_of_digits(digits).len() == digits.len(),
        forall|i: int| 0 <= i < digits.len() ==> is_digit_char(#[trigger] chars_of_digits(digits)[i]),
        !chars_of_digits(digits).contains('.'),
        digits_of_chars(chars_of_digits(digits)) == digits,
        prefix_len(chars_of_digits(digits), |c: char| is_digit_char(c)) == digits.len(),
{
    let chars = chars_of_digits(digits);
    assert forall|i: int| 0 <= i < digits.len() implies is_digit_char(#[trigger] chars[i])
        && chars[i] != '.' && digit_of_char(chars[i]) == digits[i] by {
        lemma_char_of_digit(digits[i]);
    }
    assert(digits_of_chars(chars) =~= digits);
    lemma_prefix_len_is(chars, |c: char| is_digit_char(c), chars.len() as int);
}

impl TernaryView {
    /// A number in canonical form is read back from its written form.
    #[verifier::rlimit(40)]
    pub proof fn lemma_parse_format(self)
        requires
            self.is_canonical(),
        ensures
            Self::parse(self.format()) == Ok::<Self, ParseError>(self),
    {
        let text = self.format();
        let body = text.skip(1);
        let keep = |c: char| is_digit_char(c);
        let high_first = self.integral.reverse();
        let head = chars_of_digits(high_first);
        lemma_strip_tail(self.integral);
        lemma_strip_tail(self.fractional);
        lemma_chars_of_digits(high_first);
        lemma_chars_of_digits(self.fractional);
        assert(high_first.reverse() =~= self.integral);
        if self.integral.len() == 0 && self.fractional.len() == 0 {
            assert(body =~= seq!['5']);
            lemma_prefix_len_is(body, keep, 1);
            assert(body.take(1) =~= body);
            let read = digits_of_chars(body).reverse();
            assert(read =~= seq![DualBalancedTernaryDigit::Dbt5]);
            assert(read.drop_last() =~= Seq::empty());
            reveal_with_fuel(strip_tail, 2);
            assert(strip_tail(read) =~= self.integral);
            assert(strip_tail(Seq::empty()) =~= self.fractional);
        } else if self.fractional.len() == 0 {
            assert(body =~= head);
            assert(body.take(body.len() as int) =~= body);
            assert(self.fractional =~= Seq::empty());
        } else {
            let tail = chars_of_digits(self.fractional);
            assert(body =~= head + seq!['.'] + tail);
            let stop = head.len() as int;
            assert forall|i: int| 0 <= i < stop implies keep(#[trigger] body[i]) by {
                assert(body[i] == head[i]);
            }
            assert(body[stop] == '.');
            lemma_prefix_len_is(body, keep, stop);
            assert(body.take(stop) =~= head);
            assert(body.skip(stop + 1) =~= tail);
        }
    }
}

/// The text that a digit is written with.
fn digit_str(d: DualBalancedTernaryDigit) -> (r: &'static str)
    ensures
        r@ == seq![d.spec_to_char()],
{
    match d {
        DualBalancedTernaryDigit::Dbt1 => {
            proof {
                reveal_strlit("1");
            }
            "1"
        },
        DualBalancedTernaryDigit::Dbt2 => {
            proof {
                reveal_strlit("2");
            }
            "2"
        },
        DualBalancedTernaryDigit::Dbt3 => {
            proof {
                reveal_strlit("3");
            }
            "3"
        },
        DualBalancedTernaryDigit::Dbt4 => {
            proof {
                reveal_strlit("4");
            }
            "4"
        },
        DualBalancedTernaryDigit::Dbt5 => {
            proof {
                reveal_strlit("5");
            }
            "5"
        },
        DualBalancedTernaryDigit::Dbt6 => {
            proof {
                reveal_strlit("6");
            }
            "6"
        },
        DualBalancedTernaryDigit::Dbt7 => {
            proof {
                reveal_strlit("7");
            }
            "7"
        },
        DualBalancedTernaryDigit::Dbt8 => {
            proof {
                reveal_strlit("8");
            }
            "8"
        },
        DualBalancedTernaryDigit::Dbt9 => {
            proof {
                reveal_strlit("9");
            }
            "9"
        },
    }
}

/// Whether `.` stands among the characters from an index on.
fn has_separator(text: &Vec<char>, from: usize) -> (r: bool)
    requires
        from <= text.len(),
    ensures
        r == text@.skip(from as int).contains('.'),
{
    let ghost tail = text@.skip(from as int);
    let mut j: usize = from;
    while j < text.len()
        invariant
            from <= j <= text.len(),
            tail == text@.skip(from as int),
            forall|k: int| 0 <= k < j - from ==> tail[k] != '.',
        decreases text.len() - j,
    {
        if text[j] == '.' {
            assert(tail[j - from] == '.');
            return true;
        }
        j += 1;
    }
    false
}

/// Reads digits from an index on, up to the first character that is none.
/// Returns the index at which it stopped.
fn read_digits(text: &Vec<char>, from: usize, digits: &mut Vec<DualBalancedTernaryDigit>) -> (r:
    usize)
    requires
        from <= text.len(),
    ensures
        r == from + prefix_len(text@.skip(from as int), |c: char| is_digit_char(c)),
        from <= r <= text.len(),
        final(digits)@ == old(digits)@ + digits_of_chars(text@.subrange(from as int, r as int)),
{
    let ghost tail = text@.skip(from as int);
    let ghost keep = |c: char| is_digit_char(c);
    let mut i: usize = from;
    while i < text.len()
        invariant
            from <= i <= text.len(),
            tail == text@.skip(from as int),
            keep == (|c: char| is_digit_char(c)),
            forall|k: int| 0 <= k < i - from ==> keep(#[trigger] tail[k]),
            digits@ == old(digits)@ + digits_of_chars(text@.subrange(from as int, i as int)),
        decreases text.len() - i,
    {
        match DualBalancedTernaryDigit::from_char(text[i]) {
            Ok(d) => {
                digits.push(d);
            },
            Err(_) => {
                proof {
                    assert(tail[i - from] == text@[i as int]);
                    lemma_prefix_len_is(tail, keep, i - from);
                }
                return i;
            },
        }
        i += 1;
        assert(digits@ =~= old(digits)@ + digits_of_chars(text@.subrange(from as int, i as int)));
    }
    proof {
        lemma_prefix_len_is(tail, keep, i - from);
    }
    i
}

/// The digits in the opposite order.
fn reversed(digits: &Vec<DualBalancedTernaryDigit>) -> (r: Vec<DualBalancedTernaryDigit>)
    ensures
        r@ == digits@.reverse(),
{
    let mut r: Vec<DualBalancedTernaryDigit> = Vec::new();
    let mut k: usize = digits.len();
    while k > 0
        invariant
            k <= digits.len(),
            r@.len() == digits.len() - k,
            forall|i: int| 0 <= i < r@.len() ==> r@[i] == digits@[digits.len() - 1 - i],
        decreases k,
    {
        k -= 1;
        r.push(digits[k]);
    }
    assert(r@ =~= digits@.reverse());
    r
}

impl DualBalancedTernary {
    /// Reads a number written as `&<integral>.<fractional>`, with digits `1`
    /// to `9`; the `.` may be left out together with the fractional digits.
    /// The result is in canonical form.
    ///
    /// Refused are, in this order: a text that does not start with `&`; one
    /// that ends there; a character in the integral part that is neither a
    /// digit nor `.`; a second `.`; a character in the fractional part that is
    /// no digit.
    #[verifier::rlimit(40)]
    pub fn from_str(s: &str) -> (r: Result<DualBalancedTernary, ParseError>)
        ensures
            match r {
                Ok(x) => TernaryView::parse(s@) == Ok::<TernaryView, ParseError>(x@),
                Err(e) => TernaryView::parse(s@) == Err::<TernaryView, ParseError>(e),
            },
            r is Ok ==> r->Ok_0@.is_canonical(),
    {
        let text = chars_of(s);
        let n = text.len();
        if n == 0 || text[0] != '&' {
            return Err(ParseError::MissingMarker);
        }
        if n == 1 {
            return Err(ParseError::EmptyBody);
        }
        let ghost body = s@.skip(1);
        let mut written: Vec<DualBalancedTernaryDigit> = Vec::new();
        let stop = read_digits(&text, 1, &mut written);
        assert(written@ =~= digits_of_chars(body.take(stop - 1))) by {
            assert(text@.subrange(1, stop as int) =~= body.take(stop - 1));
        }
        let integral = reversed(&written);
        let mut fractional: Vec<DualBalancedTernaryDigit> = Vec::new();
        if stop < n {
            assert(body[stop - 1] == text@[stop as int]);
            if text[stop] != '.' {
                return Err(ParseError::InvalidDigit(text[stop]));
            }
            assert(text@.skip(stop + 1) =~= body.skip(stop - 1 + 1));
            if has_separator(&text, stop + 1) {
                return Err(ParseError::MultipleSeparators);
            }
            let end = read_digits(&text, stop + 1, &mut fractional);
            if end < n {
                assert(body.skip(stop - 1 + 1)[end - (stop + 1)] == text@[end as int]);
                return Err(ParseError::InvalidDigit(text[end]));
            }
            assert(fractional@ =~= digits_of_chars(body.skip(stop - 1 + 1))) by {
                assert(text@.subrange(stop + 1, end as int) =~= body.skip(stop - 1 + 1));
            }
        }
        Ok(DualBalancedTernary { integral, fractional }.strip_empty_tails())
    }

    /// The number as it is written: `&`, the integral digits from the highest
    /// place down, and, where there are fractional digits, `.` and these. A
    /// number without digits is written `&5`.
    pub fn to_string(&self) -> (r: String)
        ensures
            r@ == self@.format(),
    {
        let mut out = String::new();
        proof {
            reveal_strlit("&");
            reveal_strlit("&5");
            reveal_strlit(".");
        }
        if self.integral.is_empty() && self.fractional.is_empty() {
            out.append("&5");
            assert(out@ =~= seq!['&', '5']);
            return out;
        }
        out.append("&");
        let ghost high_first = chars_of_digits(self.integral@.reverse());
        let mut i: usize = 0;
        while i < self.integral.len()
            invariant
                i <= self.integral.len(),
                high_first == chars_of_digits(self.integral@.reverse()),
                out@ == seq!['&'] + high_first.take(i as int),
            decreases self.integral.len() - i,
        {
            out.append(digit_str(self.integral[self.integral.len() - i - 1]));
            i += 1;
            assert(out@ =~= seq!['&'] + high_first.take(i as int));
        }
        assert(high_first.take(i as int) == high_first);
        if !self.fractional.is_empty() {
            out.append(".");
            let ghost deep = chars_of_digits(self.fractional@);
            let mut j: usize = 0;
            while j < self.fractional.len()
                invariant
                    j <= self.fractional.len(),
                    deep == chars_of_digits(self.fractional@),
                    out@ == seq!['&'] + high_first + seq!['.'] + deep.take(j as int),
                decreases self.fractional.len() - j,
            {
                out.append(digit_str(self.fractional[j]));
                j += 1;
                assert(out@ =~= seq!['&'] + high_first + seq!['.'] + deep.take(j as int));
            }
            assert(deep.take(j as int) == deep);
        }
        out
    }
}

} // verus!
