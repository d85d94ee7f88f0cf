//! NIP, the Polish tax identification number: nine digits and a check digit.
use rand::rngs::StdRng;
use vstd::prelude::*;

use crate::random::random_u8_in;
use crate::text::{
    all_decimal, chars_of, digit_values, digits_text, first_non_digit,
    lemma_all_digits_first_non_digit, lemma_digits_text_values, push_digits, read_digits,
};

use crate::text::{decimal_text, push_decimal};

verus! {

/// A valid NIP number.
#[derive(Debug, Clone, Copy, PartialEq, Eq)]
pub struct Nip([u8; 10]);

/// Why a text or nine digits do not make a NIP number.
#[derive(Debug, Clone, PartialEq, Eq)]
pub enum NipError {
    WrongLength { actual: usize },
    NonDigitCharacter { character: char },
    ChecksumMismatch { expected: u8, actual: u8 },
    UnencodableDigits { first_nine: [u8; 9] },
}

/// The sum of the first nine digits weighted 6, 5, 7, 2, 3, 4, 5, 6, 7.
pub open spec fn nip_weighted_sum(d: Seq<u8>) -> int {
    d[0] * 6 + d[1] * 5 + d[2] * 7 + d[3] * 2 + d[4] * 3 + d[5] * 4 + d[6] * 5 + d[7] * 6 + d[8]
        * 7
}

/// The check digit of the first nine digits: their weighted sum modulo 11, where that
/// is below 10; a remainder of 10 has no check digit.
pub open spec fn nip_check_digit(d: Seq<u8>) -> Option<int> {
    if nip_weighted_sum(d) % 11 == 10 {
        None
    } else {
        Some(nip_weighted_sum(d) % 11)
    }
}

/// The digits of a valid NIP number.
pub open spec fn is_nip_digits(d: Seq<u8>) -> bool {
    &&& d.len() == 10
    &&& all_decimal(d)
    &&& nip_check_digit(d) == Some(d[9] as int)
}

/// Reading the text of a NIP number gives back its digits: the outcome that
/// `Nip::parse` has for a text of ten digits whose check digit matches.
pub open spec fn nip_text_is_valid(s: Seq<char>) -> bool {
    s.len() == 10 && first_non_digit(s) is None && is_nip_digits(digit_values(s))
}

/// Every text that a NIP number is written as reads back as that number.
pub proof fn lemma_nip_text_round_trip(d: Seq<u8>)
    requires
        is_nip_digits(d),
    ensures
        nip_text_is_valid(digits_text(d)),
        digit_values(digits_text(d)) == d,
{
    lemma_digits_text_values(d);
}

/// A NIP number is valid exactly when the sum of its first nine digits weighted
/// 6, 5, 7, 2, 3, 4, 5, 6, 7 leaves its last digit as remainder modulo 11; nine digits
/// whose weighted sum leaves 10 have no check digit.
pub proof fn lemma_nip_check_digit_is_weighted_remainder(d: Seq<u8>)
    requires
        d.len() >= 9,
    ensures
        ({
            let w = 6 * d[0] + 5 * d[1] + 7 * d[2] + 2 * d[3] + 3 * d[4] + 4 * d[5] + 5 * d[6] + 6
                * d[7] + 7 * d[8];
            &&& nip_check_digit(d) is None <==> w % 11 == 10
            &&& (nip_check_digit(d) matches Some(c) ==> c == w % 11)
            &&& (d.len() == 10 && all_decimal(d) ==> (is_nip_digits(d) <==> w % 11 == d[9]))
        }),
{
    let w = 6 * d[0] + 5 * d[1] + 7 * d[2] + 2 * d[3] + 3 * d[4] + 4 * d[5] + 5 * d[6] + 6 * d[7]
        + 7 * d[8];
    assert(w == nip_weighted_sum(d));
}

/// The check digit of nine digits, or `None` where their weighted sum leaves 10.
pub fn checksum_digit(first_nine: &[u8; 9]) -> (r: Option<u8>)
    ensures
        match r {
            Some(c) => nip_check_digit(first_nine@) == Some(c as int),
            None => nip_check_digit(first_nine@) is None,
        },
{
    let sum: u32 = first_nine[0] as u32 * 6 + first_nine[1] as u32 * 5 + first_nine[2] as u32 * 7
        + first_nine[3] as u32 * 2 + first_nine[4] as u32 * 3 + first_nine[5] as u32 * 4
        + first_nine[6] as u32 * 5 + first_nine[7] as u32 * 6 + first_nine[8] as u32 * 7;
    let remainder = sum % 11;
    if remainder == 10 {
        None
    } else {
        Some(remainder as u8)
    }
}

impl View for Nip {
    type V = Seq<u8>;

    closed spec fn view(&self) -> Seq<u8> {
        self.0@
    }
}

impl Nip {
    #[verifier::type_invariant]
    spec fn is_valid(self) -> bool {
        is_nip_digits(self.0@)
    }

    /// The NIP number of nine digits and their check digit, where they have one.
    pub fn from_digits(first_nine: [u8; 9]) -> (r: Result<Self, NipError>)
        requires
            all_decimal(first_nine@),
        ensures
            match r {
                Ok(n) => nip_check_digit(first_nine@) is Some && n@ == first_nine@.push(
                    nip_check_digit(first_nine@)->0 as u8,
                ),
                Err(e) => nip_check_digit(first_nine@) is None && e
                    == NipError::UnencodableDigits { first_nine },
            },
    {
        let checksum = match checksum_digit(&first_nine) {
            Some(c) => c,
            None => return Err(NipError::UnencodableDigits { first_nine }),
        };
        let digits: [u8; 10] = [
            first_nine[0],
            first_nine[1],
            first_nine[2],
            first_nine[3],
            first_nine[4],
            first_nine[5],
            first_nine[6],
            first_nine[7],
            first_nine[8],
            checksum,
        ];
        assert(digits@ =~= first_nine@.push(checksum));
        assert(nip_weighted_sum(digits@) == nip_weighted_sum(first_nine@));
        Ok(Nip(digits))
    }

    /// Reads a NIP number: ten decimal digits, the last being the check digit of the
    /// others.
    pub fn parse(s: &str) -> (r: Result<Self, NipError>)
        ensures
            match r {
                Ok(n) => nip_text_is_valid(s@) && n@ == digit_values(s@),
                Err(NipError::WrongLength { actual }) => s@.len() != 10 && actual == s@.len(),
                Err(NipError::NonDigitCharacter { character }) => s@.len() == 10
                    && first_non_digit(s@) == Some(character),
                Err(NipError::UnencodableDigits { first_nine }) => s@.len() == 10
                    && first_non_digit(s@) is None && first_nine@ == digit_values(s@).take(9)
                    && nip_check_digit(digit_values(s@)) is None,
                Err(NipError::ChecksumMismatch { expected, actual }) => s@.len() == 10
                    && first_non_digit(s@) is None && nip_check_digit(digit_values(s@)) == Some(
                    expected as int,
                ) && actual == digit_values(s@)[9] && expected != actual,
            },
    {
        let chars = chars_of(s);
        let char_count = chars.len();
        if char_count != 10 {
            return Err(NipError::WrongLength { actual: char_count });
        }
        let digits = match read_digits(chars.as_slice()) {
            Ok(d) => d,
            Err(c) => return Err(NipError::NonDigitCharacter { character: c }),
        };
        proof {
            lemma_all_digits_first_non_digit(s@);
            assert(all_decimal(digits@));
        }
        let first_nine: [u8; 9] = [
            digits[0],
            digits[1],
            digits[2],
            digits[3],
            digits[4],
            digits[5],
            digits[6],
            digits[7],
            digits[8],
        ];
        assert(first_nine@ =~= digits@.take(9));
        assert(nip_weighted_sum(first_nine@) == nip_weighted_sum(digits@));
        let expected = match checksum_digit(&first_nine) {
            Some(c) => c,
            None => return Err(NipError::UnencodableDigits { first_nine }),
        };
        if expected != digits[9] {
            return Err(NipError::ChecksumMismatch { expected, actual: digits[9] });
        }
        let arr: [u8; 10] = [
            digits[0],
            digits[1],
            digits[2],
            digits[3],
            digits[4],
            digits[5],
            digits[6],
            digits[7],
            digits[8],
            digits[9],
        ];
        assert(arr@ =~= digits@);
        Ok(Nip(arr))
    }

    /// The ten digits as text.
    pub fn as_str(&self) -> (r: String)
        ensures
            r@ == digits_text(self@),
            is_nip_digits(self@),
    {
        proof {
            use_type_invariant(self);
        }
        let mut s = String::new();
        push_digits(&mut s, &self.0);
        assert(s@ =~= digits_text(self@));
        s
    }

    /// The ten digits as text.
    pub fn to_string(&self) -> (r: String)
        ensures
            r@ == digits_text(self@),
            is_nip_digits(self@),
    {
        self.as_str()
    }
}

/// Draws nine random digits, again for as long as they have no check digit.
pub fn generate_nip(rng: &mut StdRng) -> (r: Nip)
    ensures
        is_nip_digits(r@),
{
    let mut attempts_left: u64 = u64::MAX;
    while attempts_left > 0
        decreases attempts_left,
    {
        let digits: [u8; 9] = [
            random_u8_in(rng, 0, 9),
            random_u8_in(rng, 0, 9),
            random_u8_in(rng, 0, 9),
            random_u8_in(rng, 0, 9),
            random_u8_in(rng, 0, 9),
            random_u8_in(rng, 0, 9),
            random_u8_in(rng, 0, 9),
            random_u8_in(rng, 0, 9),
            random_u8_in(rng, 0, 9),
        ];
        match Nip::from_digits(digits) {
            Ok(nip) => {
                proof {
                    use_type_invariant(&nip);
                }
                return nip;
            },
            Err(_) => {},
        }
        attempts_left = attempts_left - 1;
    }
    // Not reached in practice: each draw fails with a chance of about 1 in 11.
    let zeros: [u8; 9] = [0, 0, 0, 0, 0, 0, 0, 0, 0];
    match Nip::from_digits(zeros) {
        Ok(nip) => {
            proof {
                use_type_invariant(&nip);
            }
            nip
        },
        Err(_) => vstd::pervasive::unreached(),
    }
}

/// The message of an error.
pub open spec fn nip_error_text(e: NipError) -> Seq<char> {
    match e {
        NipError::WrongLength { actual } => "NIP must be exactly 10 digits, got "@ + decimal_text(actual as nat),
        NipError::NonDigitCharacter { character } => "NIP must contain only digits, found '"@ + seq![character] + "'"@,
        NipError::ChecksumMismatch { expected, actual } => "checksum mismatch: expected "@ + decimal_text(expected as nat) + ", got "@ + decimal_text(actual as nat),
        NipError::UnencodableDigits { first_nine } => "prefix "@ + byte_digit_text(first_nine@) + " has no valid NIP checksum digit (weighted sum is congruent to 10 mod 11)"@,
    }
}

/// Each value written as the character `'0'` plus that value, as the message writes
/// its digits (the digit itself for 0 to 9).
pub open spec fn byte_digit_text(d: Seq<u8>) -> Seq<char> {
    Seq::new(d.len(), |i: int| ((48 + d[i]) as u8) as char)
}

/// The digits of a message, each written as `'0'` plus its value.
fn push_byte_digits(s: &mut String, digits: &[u8; 9])
    requires
        forall|i: int| 0 <= i < 9 ==> #[trigger] digits@[i] <= 207,
    ensures
        final(s)@ == old(s)@ + byte_digit_text(digits@),
{
    let mut i: usize = 0;
    while i < 9
        invariant
            i <= 9,
            forall|j: int| 0 <= j < 9 ==> #[trigger] digits@[j] <= 207,
            s@ == old(s)@ + byte_digit_text(digits@).take(i as int),
        decreases 9 - i,
    {
        let byte: u8 = 48u8 + digits[i];
        let c = byte as char;
        s.push(c);
        i = i + 1;
        assert(byte_digit_text(digits@).take(i as int) =~= byte_digit_text(digits@).take(i - 1).push(c));
    }
    assert(byte_digit_text(digits@).take(9) =~= byte_digit_text(digits@));
}

impl NipError {
    /// The message of the error.
    pub fn to_string(&self) -> (r: String)
        requires
            self matches NipError::UnencodableDigits { first_nine } ==> forall|i: int|
                0 <= i < 9 ==> #[trigger] first_nine@[i] <= 207,
        ensures
            r@ == nip_error_text(*self),
    {
        let r = match self {
            NipError::WrongLength { actual } => {
                let mut s = String::new();
                s.append("NIP must be exactly 10 digits, got ");
                push_decimal(&mut s, *actual as u64);
                s
            },
            NipError::NonDigitCharacter { character } => {
                let mut s = String::new();
                s.append("NIP must contain only digits, found '");
                s.push(*character);
                s.append("'");
                s
            },
            NipError::ChecksumMismatch { expected, actual } => {
                let mut s = String::new();
                s.append("checksum mismatch: expected ");
                push_decimal(&mut s, *expected as u64);
                s.append(", got ");
                push_decimal(&mut s, *actual as u64);
                s
            },
            NipError::UnencodableDigits { first_nine } => {
                let mut s = String::new();
                s.append("prefix ");
                push_byte_digits(&mut s, first_nine);
                s.append(" has no valid NIP checksum digit (weighted sum is congruent to 10 mod 11)");
                s
            },
        };
        proof {
            assert(r@ =~= nip_error_text(*self));
        }
        r
    }
}

} // verus!
