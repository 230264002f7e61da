use circuit_prover::field::FieldElement;
use circuit_prover::scalar::{
    field_from_magnitude, str_to_bigint, str_to_fr, IntegerParseError, StrToFrError,
};
use circuit_prover::text::{goodbye, greet};

const MODULUS_LIMBS: [u64; 4] = [
    0x43e1_f593_f000_0001,
    0x2833_e848_79b9_7091,
    0xb850_45b6_8181_585d,
    0x3064_4e72_e131_a029,
];

#[test]
fn greet_wraps_the_name() {
    assert_eq!(greet("Ada"), "Hello, Ada!");
    assert_eq!(greet(""), "Hello, !");
}

#[test]
fn goodbye_wraps_the_name() {
    assert_eq!(goodbye("Ada"), "Goodbye, Ada!");
    assert_eq!(goodbye("Zoë"), "Goodbye, Zoë!");
}

#[test]
fn bigint_reads_decimal() {
    let value = str_to_bigint("1234").unwrap();
    assert!(!value.is_negative());
    assert_eq!(value.magnitude(), &vec![0x04, 0xd2]);
}

#[test]
fn bigint_reads_hexadecimal_after_prefix() {
    let value = str_to_bigint("0x01ff").unwrap();
    assert!(!value.is_negative());
    assert_eq!(value.magnitude(), &vec![0x01, 0xff]);
}

#[test]
fn bigint_reads_negative_decimal() {
    let value = str_to_bigint("-256").unwrap();
    assert!(value.is_negative());
    assert_eq!(value.magnitude(), &vec![0x01, 0x00]);
}

#[test]
fn bigint_reads_zero() {
    let value = str_to_bigint("0").unwrap();
    assert!(!value.is_negative());
    assert_eq!(value.magnitude(), &vec![0x00]);
}

#[test]
fn bigint_reads_numbers_wider_than_a_word() {
    let value = str_to_bigint("340282366920938463463374607431768211456").unwrap();
    let mut expected = vec![0u8; 17];
    expected[0] = 1;
    assert_eq!(value.magnitude(), &expected);
}

#[test]
fn bigint_turns_bad_text_away() {
    assert_eq!(str_to_bigint("").err(), Some(IntegerParseError));
    assert_eq!(str_to_bigint("12a").err(), Some(IntegerParseError));
    assert_eq!(str_to_bigint("0x").err(), Some(IntegerParseError));
    assert_eq!(str_to_bigint("0xzz").err(), Some(IntegerParseError));
    assert_eq!(str_to_bigint("é1").err(), Some(IntegerParseError));
}

#[test]
fn bigint_prefix_is_lower_case_only() {
    assert_eq!(str_to_bigint("0X10").err(), Some(IntegerParseError));
    assert_eq!(str_to_bigint("0x10").unwrap().magnitude(), &vec![0x10]);
}

#[test]
fn field_reads_decimal() {
    assert_eq!(str_to_fr("5"), Ok(FieldElement::from_u64(5)));
    assert_eq!(str_to_fr("0"), Ok(FieldElement::from_u64(0)));
    assert_eq!(
        str_to_fr("18446744073709551616"),
        Ok(FieldElement::from_limbs([0, 1, 0, 0]).unwrap())
    );
}

#[test]
fn field_reads_hexadecimal_big_endian() {
    assert_eq!(str_to_fr("0x0102"), Ok(FieldElement::from_u64(0x0102)));
    assert_eq!(str_to_fr("0xFf"), Ok(FieldElement::from_u64(255)));
    assert_eq!(str_to_fr("0x"), Ok(FieldElement::from_u64(0)));
}

#[test]
fn field_hexadecimal_wraps_around_the_order() {
    let above = "0x30644e72e131a029b85045b68181585d2833e84879b9709143e1f593f0000006";
    assert_eq!(str_to_fr(above), str_to_fr("5"));
    assert_eq!(str_to_fr(above), Ok(FieldElement::from_u64(5)));
    let order = "0x30644e72e131a029b85045b68181585d2833e84879b9709143e1f593f0000001";
    assert_eq!(str_to_fr(order), Ok(FieldElement::from_u64(0)));
}

#[test]
fn field_hexadecimal_of_any_length_is_reduced() {
    let long = "0x0100000000000000000000000000000000000000000000000000000000000000000000";
    let value = str_to_fr(long).unwrap();
    let reduced = "5997804436660102430433677399742247626519245182978101443325077694937694909881";
    assert_eq!(Ok(value), str_to_fr(reduced));
}

#[test]
fn field_decimal_at_or_above_the_order_is_turned_away() {
    let order = "21888242871839275222246405745257275088548364400416034343698204186575808495617";
    assert_eq!(str_to_fr(order), Err(StrToFrError::FieldParseError));
    let above = "21888242871839275222246405745257275088548364400416034343698204186575808495622";
    assert_eq!(str_to_fr(above), Err(StrToFrError::FieldParseError));
    let wide = "115792089237316195423570985008687907853269984665640564039457584007913129639936";
    assert_eq!(str_to_fr(wide), Err(StrToFrError::FieldParseError));
    let wider = "1157920892373161954235709850086879078532699846656405640394575840079131296399360";
    assert_eq!(str_to_fr(wider), Err(StrToFrError::FieldParseError));
}

#[test]
fn field_decimal_just_below_the_order_is_read() {
    let below = "21888242871839275222246405745257275088548364400416034343698204186575808495616";
    let expected = FieldElement::from_limbs([
        MODULUS_LIMBS[0] - 1,
        MODULUS_LIMBS[1],
        MODULUS_LIMBS[2],
        MODULUS_LIMBS[3],
    ])
    .unwrap();
    assert_eq!(str_to_fr(below), Ok(expected));
    assert_eq!(str_to_fr("007"), Ok(FieldElement::from_u64(7)));
    assert_eq!(str_to_fr("+7"), Ok(FieldElement::from_u64(7)));
}

#[test]
fn field_decimal_below_zero_is_turned_away() {
    assert_eq!(str_to_fr("-1"), Err(StrToFrError::FieldParseError));
    assert_eq!(str_to_fr("-5"), Err(StrToFrError::FieldParseError));
    assert_eq!(str_to_fr("-0"), Ok(FieldElement::from_u64(0)));
}

#[test]
fn field_from_magnitude_reads_numbers_below_the_order() {
    assert_eq!(field_from_magnitude(&[]), Some(FieldElement::from_u64(0)));
    assert_eq!(field_from_magnitude(&[0, 0, 1, 2]), Some(FieldElement::from_u64(0x0102)));
    let mut wide = vec![0u8; 40];
    wide[39] = 9;
    assert_eq!(field_from_magnitude(&wide), Some(FieldElement::from_u64(9)));
    let mut limb = vec![1u8];
    limb.extend_from_slice(&[0u8; 8]);
    assert_eq!(field_from_magnitude(&limb), FieldElement::from_limbs([0, 1, 0, 0]));
    assert!(field_from_magnitude(&limb).is_some());
    let mut order = Vec::new();
    for limb in MODULUS_LIMBS.iter().rev() {
        order.extend_from_slice(&limb.to_be_bytes());
    }
    assert_eq!(field_from_magnitude(&order), None);
    order[31] = 0;
    assert!(field_from_magnitude(&order).is_some());
    assert_eq!(field_from_magnitude(&[0xff; 32]), None);
    assert_eq!(field_from_magnitude(&[1; 33]), None);
}

#[test]
fn field_reports_odd_hexadecimal_length() {
    assert_eq!(
        str_to_fr("0xabc"),
        Err(StrToFrError::HexError(hex::FromHexError::OddLength))
    );
}

#[test]
fn field_reports_the_first_bad_hexadecimal_digit() {
    assert_eq!(
        str_to_fr("0x12g4zz"),
        Err(StrToFrError::HexError(hex::FromHexError::InvalidHexCharacter { c: 'g', index: 2 }))
    );
}

#[test]
fn field_reports_bad_decimal() {
    assert_eq!(str_to_fr("abc"), Err(StrToFrError::FieldParseError));
    assert_eq!(str_to_fr(""), Err(StrToFrError::FieldParseError));
    assert_eq!(str_to_fr("1.5"), Err(StrToFrError::FieldParseError));
}

#[test]
fn field_error_messages() {
    assert_eq!(
        StrToFrError::HexError(hex::FromHexError::OddLength).message(),
        "Hex decoding failed: Odd number of digits"
    );
    assert_eq!(
        StrToFrError::HexError(hex::FromHexError::InvalidStringLength).message(),
        "Hex decoding failed: Invalid string length"
    );
    assert_eq!(
        str_to_fr("0x12g4").unwrap_err().message(),
        "Hex decoding failed: Invalid character 'g' at position 2"
    );
    assert_eq!(StrToFrError::FieldParseError.message(), "Field parsing failed");
}

#[test]
fn field_element_from_limbs_keeps_below_the_order() {
    assert!(FieldElement::from_limbs(MODULUS_LIMBS).is_none());
    assert!(FieldElement::from_limbs([u64::MAX; 4]).is_none());
    let below = [MODULUS_LIMBS[0] - 1, MODULUS_LIMBS[1], MODULUS_LIMBS[2], MODULUS_LIMBS[3]];
    assert_eq!(FieldElement::from_limbs(below).unwrap().limbs(), below);
    let above = [MODULUS_LIMBS[0] + 1, MODULUS_LIMBS[1], MODULUS_LIMBS[2], MODULUS_LIMBS[3]];
    assert!(FieldElement::from_limbs(above).is_none());
    let lower_top = [u64::MAX, u64::MAX, u64::MAX, MODULUS_LIMBS[3] - 1];
    assert!(FieldElement::from_limbs(lower_top).is_some());
}

#[test]
fn field_element_same_tells_values_apart() {
    let five = FieldElement::from_u64(5);
    assert!(five.same(&FieldElement::from_u64(5)));
    assert!(!five.same(&FieldElement::from_u64(6)));
    assert!(!five.same(&FieldElement::from_limbs([5, 1, 0, 0]).unwrap()));
}
