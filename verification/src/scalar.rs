//! Numbers written as text: decimal, or hexadecimal behind a leading `0x`.
//!
//! [`str_to_bigint`] reads an integer of any size, [`str_to_fr`] an element
//! of the scalar field. A hexadecimal field element is read as big-endian
//! bytes and reduced modulo the field's order; values at or above the order
//! are accepted and wrap around. A decimal field element has to be written
//! as a number of the field: a negative number, or one at or above the
//! order, is turned away.

use crate::field::{limbs_value, modulus, FieldElement};
use ark_ff::PrimeField;
use num_traits::Num;
use vstd::prelude::*;
use vstd::string::*;
use vstd::utf8::encode_utf8;

verus! {

/// The number that a sequence of bytes spells, most significant byte first.
pub open spec fn be_value(bytes: Seq<u8>) -> nat
    decreases bytes.len(),
{
    if bytes.len() == 0 {
        0
    } else {
        be_value(bytes.drop_last()) * 256 + bytes.last() as nat
    }
}

/// Whether a text starts with the two characters `0x`.
pub open spec fn has_hex_prefix(text: Seq<char>) -> bool {
    text.len() >= 2 && text[0] == '0' && text[1] == 'x'
}

/// An integer of any size: a sign and the magnitude in big-endian bytes.
#[derive(Clone, Debug)]
pub struct BigInteger {
    negative: bool,
    magnitude: Vec<u8>,
}

impl View for BigInteger {
    type V = int;

    /// The integer that the value stands for.
    closed spec fn view(&self) -> int {
        if self.negative {
            -(be_value(self.magnitude@) as int)
        } else {
            be_value(self.magnitude@) as int
        }
    }
}

impl BigInteger {
    /// The integer with the given sign and big-endian magnitude.
    pub fn new(negative: bool, magnitude: Vec<u8>) -> (out: BigInteger)
        ensures
            out@ == (if negative {
                -(be_value(magnitude@) as int)
            } else {
                be_value(magnitude@) as int
            }),
            out.spec_magnitude() == magnitude@,
            out.spec_negative() == negative,
    {
        BigInteger { negative, magnitude }
    }

    /// The sign flag in specifications.
    pub closed spec fn spec_negative(&self) -> bool {
        self.negative
    }

    /// The magnitude in specifications, most significant byte first.
    pub closed spec fn spec_magnitude(&self) -> Seq<u8> {
        self.magnitude@
    }

    /// The view in terms of the sign flag and the magnitude.
    pub proof fn lemma_view(&self)
        ensures
            self@ == (if self.spec_negative() {
                -(be_value(self.spec_magnitude()) as int)
            } else {
                be_value(self.spec_magnitude()) as int
            }),
    {
    }

    /// Whether the sign flag is set. Zero may carry either flag.
    pub fn is_negative(&self) -> (out: bool)
        ensures
            out == self.spec_negative(),
    {
        self.negative
    }

    /// The magnitude, most significant byte first.
    pub fn magnitude(&self) -> (out: &Vec<u8>)
        ensures
            out@ == self.spec_magnitude(),
    {
        &self.magnitude
    }
}

/// Why a text is no integer.
#[derive(Clone, Copy, Debug, PartialEq, Eq)]
pub struct IntegerParseError;

/// Why a text is no field element.
#[derive(Clone, Copy, Debug, PartialEq)]
pub enum StrToFrError {
    /// The text after `0x` is not a run of pairs of hexadecimal digits.
    HexError(hex::FromHexError),
    /// The text is no decimal number.
    FieldParseError,
}

/// What `hex` says of a byte that is no hexadecimal digit, at a place.
pub uninterp spec fn bad_digit_text(digit: char, place: usize) -> Seq<char>;

/// What `hex` says of a failure.
pub open spec fn hex_failure_text(reason: hex::FromHexError) -> Seq<char> {
    match reason {
        hex::FromHexError::InvalidHexCharacter { c, index } => bad_digit_text(c, index),
        hex::FromHexError::OddLength => "Odd number of digits"@,
        hex::FromHexError::InvalidStringLength => "Invalid string length"@,
    }
}

/// Calls `to_string` of `hex::FromHexError`, that is its `Display`: a fixed
/// phrase for an odd length and for a wrong length, and for a byte that is
/// no digit a phrase made of the byte and its place, which `bad_digit_text`
/// names.
#[verifier::external_body]
fn describe_hex_failure(reason: &hex::FromHexError) -> (out: String)
    ensures
        out@ == (match *reason {
            hex::FromHexError::InvalidHexCharacter { c, index } => bad_digit_text(c, index),
            hex::FromHexError::OddLength => "Odd number of digits"@,
            hex::FromHexError::InvalidStringLength => "Invalid string length"@,
        }),
{
    reason.to_string()
}

impl StrToFrError {
    /// The message of the error in specifications.
    pub open spec fn spec_message(self) -> Seq<char> {
        match self {
            StrToFrError::HexError(reason) => "Hex decoding failed: "@ + hex_failure_text(reason),
            StrToFrError::FieldParseError => "Field parsing failed"@,
        }
    }

    /// The message of the error: for a hexadecimal failure, what `hex` says
    /// of it behind a fixed phrase.
    pub fn message(&self) -> (out: String)
        ensures
            out@ == self.spec_message(),
    {
        match self {
            StrToFrError::HexError(reason) => {
                let mut out = "Hex decoding failed: ".to_owned();
                let detail = describe_hex_failure(reason);
                out.append(detail.as_str());
                out
            },
            StrToFrError::FieldParseError => "Field parsing failed".to_owned(),
        }
    }
}

#[verifier::external_type_specification]
pub struct ExFromHexError(hex::FromHexError);

#[verifier::external_type_specification]
#[verifier::external_body]
pub struct ExParseBigIntError(num_bigint::ParseBigIntError);

/// The value of one hexadecimal digit, given as its ASCII byte.
pub open spec fn hex_digit_value(digit: u8) -> Option<u8> {
    if 0x30 <= digit <= 0x39 {
        Some((digit - 0x30) as u8)
    } else if 0x61 <= digit <= 0x66 {
        Some((digit - 0x61 + 10) as u8)
    } else if 0x41 <= digit <= 0x46 {
        Some((digit - 0x41 + 10) as u8)
    } else {
        None
    }
}

/// The place of the first byte that is no hexadecimal digit.
pub open spec fn first_bad_hex_digit(text: Seq<u8>) -> Option<int>
    decreases text.len(),
{
    if text.len() == 0 {
        None
    } else if hex_digit_value(text[0]) is None {
        Some(0)
    } else {
        match first_bad_hex_digit(text.drop_first()) {
            Some(place) => Some(place + 1),
            None => None,
        }
    }
}

/// The bytes that a hexadecimal text spells, two digits to a byte, or the
/// reason why it spells none. An odd length is reported before a bad digit,
/// and of several bad digits the first.
pub open spec fn hex_decoding(text: Seq<u8>) -> Result<Seq<u8>, hex::FromHexError> {
    if text.len() % 2 != 0 {
        Err(hex::FromHexError::OddLength)
    } else {
        match first_bad_hex_digit(text) {
            Some(place) => Err(
                hex::FromHexError::InvalidHexCharacter {
                    c: (text[place] as u32) as char,
                    index: place as usize,
                },
            ),
            None => Ok(
                Seq::new(
                    text.len() / 2,
                    |k: int|
                        (hex_digit_value(text[2 * k]).unwrap() * 16 + hex_digit_value(
                            text[2 * k + 1],
                        ).unwrap()) as u8,
                ),
            ),
        }
    }
}

/// The integer that `num_bigint` reads from a text in a radix, where it reads one.
pub uninterp spec fn bigint_from_text(text: Seq<char>, radix: u32) -> Option<int>;

/// The integer that a text stands for: hexadecimal digits after `0x`,
/// decimal digits otherwise.
pub open spec fn integer_of_text(text: Seq<char>) -> Option<int> {
    if has_hex_prefix(text) {
        bigint_from_text(text.skip(2), 16)
    } else {
        bigint_from_text(text, 10)
    }
}

/// The field element that a text stands for, as the integer below the
/// order, or the reason why it stands for none. A hexadecimal number is
/// reduced modulo the order; a decimal number has to lie in the field as it
/// is written, from zero up to the order, the order left out.
pub open spec fn field_of_text(text: Seq<char>) -> Result<nat, StrToFrError> {
    if has_hex_prefix(text) {
        match hex_decoding(encode_utf8(text.skip(2))) {
            Ok(bytes) => Ok(be_value(bytes) % modulus()),
            Err(reason) => Err(StrToFrError::HexError(reason)),
        }
    } else {
        match bigint_from_text(text, 10) {
            Some(value) => if 0 <= value < modulus() {
                Ok(value as nat)
            } else {
                Err(StrToFrError::FieldParseError)
            },
            None => Err(StrToFrError::FieldParseError),
        }
    }
}

/// One more byte at the end multiplies the number by 256 and adds the byte.
pub proof fn lemma_be_value_step(bytes: Seq<u8>, k: int)
    requires
        0 <= k < bytes.len(),
    ensures
        be_value(bytes.take(k + 1)) == be_value(bytes.take(k)) * 256 + bytes[k] as nat,
{
    assert(bytes.take(k + 1).drop_last() =~= bytes.take(k));
}

/// The number that the first bytes spell is no larger than the number that
/// all bytes spell.
pub proof fn lemma_be_value_grows(bytes: Seq<u8>, k: int)
    requires
        0 <= k <= bytes.len(),
    ensures
        be_value(bytes.take(k)) <= be_value(bytes),
    decreases bytes.len() - k,
{
    if k < bytes.len() {
        lemma_be_value_step(bytes, k);
        lemma_be_value_grows(bytes, k + 1);
    } else {
        assert(bytes.take(k) =~= bytes);
    }
}

/// Hexadecimal numbers wrap around the order: bytes that spell a number
/// and bytes that spell it with a multiple of the order added stand for the
/// same field element.
pub proof fn lemma_hexadecimal_wraps_around(plain: Seq<u8>, raised: Seq<u8>, turns: nat)
    requires
        be_value(raised) == be_value(plain) + turns * modulus(),
    ensures
        be_value(raised) % modulus() == be_value(plain) % modulus(),
{
    vstd::arithmetic::div_mod::lemma_mod_multiples_vanish(
        turns as int,
        be_value(plain) as int,
        modulus() as int,
    );
    assert(turns * modulus() + be_value(plain) == be_value(plain) + turns * modulus());
}

/// Calls `num_bigint::BigInt::from_str_radix`. The result is a function of
/// the text and the radix alone, which `bigint_from_text` names; the integer
/// comes back as its sign and big-endian magnitude. The radix must lie in
/// 2..=36, outside of which the call panics.
#[verifier::external_body]
fn parse_bigint_radix(text: &str, radix: u32) -> (out: Result<
    BigInteger,
    num_bigint::ParseBigIntError,
>)
    requires
        2 <= radix <= 36,
    ensures
        match out {
            Ok(value) => bigint_from_text(text@, radix) == Some(value@),
            Err(_) => bigint_from_text(text@, radix) is None,
        },
{
    num_bigint::BigInt::from_str_radix(text, radix).map(
        |value|
            {
                let (sign, magnitude) = value.to_bytes_be();
                BigInteger::new(sign == num_bigint::Sign::Minus, magnitude)
            },
    )
}

/// Calls `hex::decode` on the bytes of a text: two hexadecimal digits of
/// either case give one byte; an odd length or a byte that is no digit gives
/// the error that `hex_decoding` states.
#[verifier::external_body]
fn hex_decode(text: &str) -> (out: Result<Vec<u8>, hex::FromHexError>)
    ensures
        match out {
            Ok(bytes) => hex_decoding(text.spec_bytes()) == Ok::<Seq<u8>, hex::FromHexError>(
                bytes@,
            ),
            Err(reason) => hex_decoding(text.spec_bytes()) == Err::<Seq<u8>, hex::FromHexError>(
                reason,
            ),
        },
{
    hex::decode(text)
}

/// Calls `Fr::from_be_bytes_mod_order` of `ark_ff::PrimeField`: the bytes are
/// read as one big-endian number, which is reduced modulo the field's order.
#[verifier::external_body]
fn field_from_be_bytes(bytes: &[u8]) -> (out: FieldElement)
    ensures
        out@ == be_value(bytes@) % modulus(),
{
    let element = ark_bn254::Fr::from_be_bytes_mod_order(bytes);
    FieldElement::from_limbs(element.into_bigint().0).unwrap()
}

/// The field element that big-endian bytes spell, where they spell a
/// number below the field's order.
pub fn field_from_magnitude(bytes: &[u8]) -> (out: Option<FieldElement>)
    ensures
        match out {
            Some(element) => element@ == be_value(bytes@),
            None => be_value(bytes@) >= modulus(),
        },
{
    let mut l0: u64 = 0;
    let mut l1: u64 = 0;
    let mut l2: u64 = 0;
    let mut l3: u64 = 0;
    let mut i: usize = 0;
    assert(bytes@.take(0) =~= Seq::<u8>::empty());
    while i < bytes.len()
        invariant
            i <= bytes.len(),
            limbs_value(l0, l1, l2, l3) == be_value(bytes@.take(i as int)),
        decreases bytes.len() - i,
    {
        proof {
            lemma_be_value_step(bytes@, i as int);
        }
        if l3 >= 0x0100_0000_0000_0000 {
            proof {
                lemma_be_value_grows(bytes@, i + 1);
            }
            return None;
        }
        let byte = bytes[i];
        let t0: u128 = (l0 as u128) * 256 + (byte as u128);
        let t1: u128 = (l1 as u128) * 256 + t0 / 0x1_0000_0000_0000_0000;
        let t2: u128 = (l2 as u128) * 256 + t1 / 0x1_0000_0000_0000_0000;
        let t3: u128 = (l3 as u128) * 256 + t2 / 0x1_0000_0000_0000_0000;
        let n0: u64 = (t0 % 0x1_0000_0000_0000_0000) as u64;
        let n1: u64 = (t1 % 0x1_0000_0000_0000_0000) as u64;
        let n2: u64 = (t2 % 0x1_0000_0000_0000_0000) as u64;
        let n3: u64 = t3 as u64;
        assert(limbs_value(n0, n1, n2, n3) == limbs_value(l0, l1, l2, l3) * 256 + byte as nat);
        l0 = n0;
        l1 = n1;
        l2 = n2;
        l3 = n3;
        i += 1;
    }
    proof {
        assert(bytes@.take(bytes.len() as int) =~= bytes@);
    }
    FieldElement::from_limbs([l0, l1, l2, l3])
}

/// Reads an integer: hexadecimal digits after a leading `0x`, decimal digits
/// otherwise.
pub fn str_to_bigint(s: &str) -> (out: Result<BigInteger, IntegerParseError>)
    ensures
        match out {
            Ok(value) => integer_of_text(s@) == Some(value@),
            Err(_) => integer_of_text(s@) is None,
        },
{
    let length = s.unicode_len();
    let parsed = if length >= 2 && s.get_char(0) == '0' && s.get_char(1) == 'x' {
        let digits = s.substring_char(2, length);
        assert(digits@ == s@.skip(2));
        parse_bigint_radix(digits, 16)
    } else {
        parse_bigint_radix(s, 10)
    };
    match parsed {
        Ok(value) => Ok(value),
        Err(_) => Err(IntegerParseError),
    }
}

/// Reads a field element: big-endian hexadecimal digits after a leading
/// `0x`, reduced modulo the field's order, or a decimal number, which is
/// turned away where it does not lie in the field as it is written.
pub fn str_to_fr(s: &str) -> (out: Result<FieldElement, StrToFrError>)
    ensures
        match out {
            Ok(element) => field_of_text(s@) == Ok::<nat, StrToFrError>(element@),
            Err(reason) => field_of_text(s@) == Err::<nat, StrToFrError>(reason),
        },
{
    let length = s.unicode_len();
    if length >= 2 && s.get_char(0) == '0' && s.get_char(1) == 'x' {
        let digits = s.substring_char(2, length);
        assert(digits@ == s@.skip(2));
        match hex_decode(digits) {
            Ok(bytes) => Ok(field_from_be_bytes(bytes.as_slice())),
            Err(reason) => Err(StrToFrError::HexError(reason)),
        }
    } else {
        let value = match parse_bigint_radix(s, 10) {
            Ok(value) => value,
            Err(_) => {
                return Err(StrToFrError::FieldParseError);
            },
        };
        proof {
            value.lemma_view();
        }
        match field_from_magnitude(value.magnitude().as_slice()) {
            Some(element) => {
                proof {
                    use_type_invariant(&element);
                }
                if value.is_negative() && !element.same(&FieldElement::from_u64(0)) {
                    Err(StrToFrError::FieldParseError)
                } else {
                    Ok(element)
                }
            },
            None => Err(StrToFrError::FieldParseError),
        }
    }
}

} // verus!
