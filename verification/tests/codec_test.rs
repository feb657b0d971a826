use dual_balanced_ternary::error::CodecError;
use dual_balanced_ternary::DualBalancedTernaryDigit::{Dbt1, Dbt2, Dbt5};
use dual_balanced_ternary::{ternary, DualBalancedTernary};

#[test]
fn encode_packs_two_digits_to_the_byte() {
    assert_eq!(ternary("&1.1").to_buffer(), Ok(vec![1, 21, 21]));
    assert_eq!(ternary("&14.14").to_buffer(), Ok(vec![2, 65, 20]));
    assert_eq!(ternary("&12.12").to_buffer(), Ok(vec![2, 0x21, 0x12]));
    assert_eq!(ternary("&123.456").to_buffer(), Ok(vec![3, 0x32, 0x15, 0x45, 0x65]));
    assert_eq!(ternary("&5").to_buffer(), Ok(vec![0]));
    assert_eq!(ternary("&.9").to_buffer(), Ok(vec![0, 0x95]));
    assert_eq!(ternary("&9").to_buffer(), Ok(vec![1, 0x95]));
}

#[test]
fn encode_refuses_a_long_integral_part() {
    let ones = |n: usize| DualBalancedTernary { integral: vec![Dbt1; n], fractional: vec![] };
    assert_eq!(ones(256).to_buffer(), Err(CodecError::IntegralTooLong(256)));
    assert_eq!(ones(300).to_buffer(), Err(CodecError::IntegralTooLong(300)));
    let buf = ones(255).to_buffer().unwrap();
    assert_eq!(buf.len(), 129);
    assert_eq!(buf[0], 255);
    assert_eq!(buf[1], 0x11);
    assert_eq!(buf[128], 0x15);
    assert_eq!(DualBalancedTernary::from_buffer(&buf), Ok(ones(255)));
}

#[test]
fn encode_counts_the_canonical_digits() {
    let mut integral = vec![Dbt1];
    integral.extend(vec![Dbt5; 400]);
    let x = DualBalancedTernary { integral, fractional: vec![Dbt5; 3] };
    assert_eq!(x.to_buffer(), Ok(vec![1, 0x15]));
}

#[test]
fn encode_of_a_long_fraction() {
    let x = DualBalancedTernary { integral: vec![], fractional: vec![Dbt2; 1000] };
    let buf = x.to_buffer().unwrap();
    assert_eq!(buf.len(), 501);
    assert_eq!(DualBalancedTernary::from_buffer(&buf), Ok(x));
}

#[test]
fn decode_reads_what_the_first_byte_announces() {
    assert_eq!(DualBalancedTernary::from_buffer(&vec![1, 21, 21]), Ok(ternary("&1.1")));
    assert_eq!(DualBalancedTernary::from_buffer(&vec![1, 65, 20]), Ok(ternary("&14.14")));
    assert_eq!(DualBalancedTernary::from_buffer(&vec![0]), Ok(ternary("&5")));
    assert_eq!(DualBalancedTernary::from_buffer(&vec![0, 0x12]), Ok(ternary("&.12")));
    assert_eq!(DualBalancedTernary::from_buffer(&vec![2, 0x12]), Ok(ternary("&21")));
    assert_eq!(DualBalancedTernary::from_buffer(&vec![4, 0x12, 0x34, 0x56]), Ok(ternary("&4321.56")));
    let x = DualBalancedTernary::from_buffer(&vec![3, 0x12, 0x35, 0x45]).unwrap();
    assert_eq!(x.to_string(), "&321.4");
}

#[test]
fn decode_refuses_an_empty_buffer() {
    assert_eq!(DualBalancedTernary::from_buffer(&vec![]), Err(CodecError::Empty));
}

#[test]
fn decode_refuses_a_short_buffer() {
    assert_eq!(DualBalancedTernary::from_buffer(&vec![1]), Err(CodecError::Truncated));
    assert_eq!(DualBalancedTernary::from_buffer(&vec![3, 0x11]), Err(CodecError::Truncated));
    assert_eq!(DualBalancedTernary::from_buffer(&vec![255, 0x11]), Err(CodecError::Truncated));
    assert_eq!(DualBalancedTernary::from_buffer(&vec![5, 0x11, 0xaa]), Err(CodecError::Truncated));
}

#[test]
fn decode_refuses_a_half_byte_that_is_no_digit() {
    assert_eq!(DualBalancedTernary::from_buffer(&vec![1, 0x1a]), Err(CodecError::InvalidNibble(10)));
    assert_eq!(DualBalancedTernary::from_buffer(&vec![1, 0x01]), Err(CodecError::InvalidNibble(0)));
    assert_eq!(DualBalancedTernary::from_buffer(&vec![1, 0x10]), Err(CodecError::InvalidNibble(0)));
    assert_eq!(
        DualBalancedTernary::from_buffer(&vec![1, 0x11, 0x1f, 0xa1]),
        Err(CodecError::InvalidNibble(15))
    );
    assert_eq!(
        DualBalancedTernary::from_buffer(&vec![2, 0xb1, 0x1f]),
        Err(CodecError::InvalidNibble(11))
    );
}

#[test]
fn buffer_round_trip_gives_the_canonical_form() {
    for text in ["&5", "&1", "&.1", "&12.12", "&123.45678", "&987654321.123456789"] {
        let x = ternary(text);
        let back = DualBalancedTernary::from_buffer(&x.to_buffer().unwrap()).unwrap();
        assert_eq!(back.integral, x.integral);
        assert_eq!(back.fractional, x.fractional);
    }
    let padded = DualBalancedTernary { integral: vec![Dbt1, Dbt2, Dbt5, Dbt5], fractional: vec![Dbt5] };
    let back = DualBalancedTernary::from_buffer(&padded.to_buffer().unwrap()).unwrap();
    assert_eq!(back.integral, vec![Dbt1, Dbt2]);
    assert_eq!(back.fractional, vec![]);
    let canonical = padded.strip_empty_tails();
    assert_eq!(back.integral, canonical.integral);
    assert_eq!(back.fractional, canonical.fractional);
}
