//! Polish mobile phone numbers: nine digits, written `+48 NNN NNN NNN`.
use rand::rngs::StdRng;
use vstd::prelude::*;

use crate::random::{random_index, random_u8_in};
use crate::text::{
    all_decimal, chars_of, digit_values, digits_text, first_non_digit,
    lemma_all_digits_first_non_digit, lemma_digits_text_values, push_digits, read_digits,
};

use crate::text::{decimal_text, push_decimal};

verus! {

/// A phone number: nine digits that do not start with a reserved prefix.
#[derive(Debug, Clone, Copy, PartialEq, Eq)]
pub struct PhoneNumber([u8; 9]);

/// Why a text or nine digits do not make a phone number.
#[derive(Debug, Clone, PartialEq, Eq)]
pub enum PhoneNumberError {
    WrongLength { actual: usize },
    NonDigitCharacter { character: char },
    ReservedPrefix { prefix: String },
}

/// The two-digit prefixes of emergency, service and premium-rate numbers: 70, 80, 81,
/// 99 and 11.
pub open spec fn is_reserved_prefix(a: int, b: int) -> bool {
    (a == 7 && b == 0) || (a == 8 && b == 0) || (a == 8 && b == 1) || (a == 9 && b == 9) || (a
        == 1 && b == 1)
}

/// The two-digit prefixes of the generated mobile numbers.
pub open spec fn mobile_prefixes() -> Seq<(u8, u8)> {
    seq![
        (4u8, 5u8),
        (5u8, 0u8),
        (5u8, 1u8),
        (5u8, 3u8),
        (5u8, 7u8),
        (6u8, 0u8),
        (6u8, 6u8),
        (6u8, 9u8),
        (7u8, 2u8),
        (7u8, 3u8),
        (7u8, 8u8),
        (7u8, 9u8),
        (8u8, 8u8),
    ]
}

/// The digits of a valid phone number.
pub open spec fn is_phone_digits(d: Seq<u8>) -> bool {
    d.len() == 9 && all_decimal(d) && !is_reserved_prefix(d[0] as int, d[1] as int)
}

/// The `+48 NNN NNN NNN` text of nine digits.
pub open spec fn phone_text(d: Seq<u8>) -> Seq<char> {
    seq!['+', '4', '8', ' '] + digits_text(d.subrange(0, 3)) + seq![' '] + digits_text(
        d.subrange(3, 6),
    ) + seq![' '] + digits_text(d.subrange(6, 9))
}

/// The nine digits of a phone number's text, without the country code and spaces.
pub open spec fn phone_text_digits(t: Seq<char>) -> Seq<char> {
    t.subrange(4, 7) + t.subrange(8, 11) + t.subrange(12, 15)
}

/// A phone number is written `+48`, a space, and its nine digits in three groups of
/// three separated by spaces, in their order.
pub proof fn lemma_phone_text_layout(d: Seq<u8>)
    requires
        d.len() == 9,
        all_decimal(d),
    ensures
        phone_text(d).len() == 15,
        phone_text(d)[0] == '+' && phone_text(d)[1] == '4' && phone_text(d)[2] == '8',
        phone_text(d)[3] == ' ' && phone_text(d)[7] == ' ' && phone_text(d)[11] == ' ',
        forall|i: int|
            0 <= i < 9 ==> digit_values(seq![#[trigger] phone_text(d)[4 + i + i / 3]])[0] == d[i],
{
    let t = phone_text(d);
    let a = d.subrange(0, 3);
    let b = d.subrange(3, 6);
    let c = d.subrange(6, 9);
    lemma_digits_text_values(a);
    lemma_digits_text_values(b);
    lemma_digits_text_values(c);
    assert forall|i: int| 0 <= i < 9 implies digit_values(seq![#[trigger] t[4 + i + i / 3]])[0]
        == d[i] by {
        if i < 3 {
            assert(t[4 + i] == digits_text(a)[i]);
            assert(digit_values(digits_text(a))[i] == a[i]);
        } else if i < 6 {
            assert(t[5 + i] == digits_text(b)[i - 3]);
            assert(digit_values(digits_text(b))[i - 3] == b[i - 3]);
        } else {
            assert(t[6 + i] == digits_text(c)[i - 6]);
            assert(digit_values(digits_text(c))[i - 6] == c[i - 6]);
        }
    }
}

/// The digits of a phone number's text, read back, are the number's digits.
pub proof fn lemma_phone_text_round_trip(d: Seq<u8>)
    requires
        is_phone_digits(d),
    ensures
        phone_text(d).len() == 15,
        phone_text_digits(phone_text(d)) == digits_text(d),
        first_non_digit(digits_text(d)) is None,
        digit_values(digits_text(d)) == d,
{
    assert(phone_text_digits(phone_text(d)) =~= digits_text(d));
    lemma_digits_text_values(d);
}

fn is_reserved(a: u8, b: u8) -> (r: bool)
    ensures
        r == is_reserved_prefix(a as int, b as int),
{
    (a == 7 && b == 0) || (a == 8 && b == 0) || (a == 8 && b == 1) || (a == 9 && b == 9) || (a
        == 1 && b == 1)
}

impl View for PhoneNumber {
    type V = Seq<u8>;

    closed spec fn view(&self) -> Seq<u8> {
        self.0@
    }
}

impl PhoneNumber {
    #[verifier::type_invariant]
    spec fn is_valid(self) -> bool {
        is_phone_digits(self.0@)
    }

    /// The phone number of nine digits, unless they start with a reserved prefix.
    pub fn from_digits(digits: [u8; 9]) -> (r: Result<Self, PhoneNumberError>)
        requires
            all_decimal(digits@),
        ensures
            match r {
                Ok(p) => !is_reserved_prefix(digits@[0] as int, digits@[1] as int) && p@
                    == digits@,
                Err(PhoneNumberError::ReservedPrefix { prefix }) => is_reserved_prefix(
                    digits@[0] as int,
                    digits@[1] as int,
                ) && prefix@ == digits_text(digits@.subrange(0, 2)),
                Err(_) => false,
            },
    {
        if is_reserved(digits[0], digits[1]) {
            let head: [u8; 2] = [digits[0], digits[1]];
            assert(head@ =~= digits@.subrange(0, 2));
            let mut prefix = String::new();
            push_digits(&mut prefix, &head);
            assert(prefix@ =~= digits_text(digits@.subrange(0, 2)));
            return Err(PhoneNumberError::ReservedPrefix { prefix });
        }
        Ok(PhoneNumber(digits))
    }

    /// Reads a phone number: nine decimal digits without a reserved prefix.
    pub fn parse(s: &str) -> (r: Result<Self, PhoneNumberError>)
        ensures
            match r {
                Ok(p) => s@.len() == 9 && first_non_digit(s@) is None && is_phone_digits(
                    digit_values(s@),
                ) && p@ == digit_values(s@),
                Err(PhoneNumberError::WrongLength { actual }) => s@.len() != 9 && actual
                    == s@.len(),
                Err(PhoneNumberError::NonDigitCharacter { character }) => s@.len() == 9
                    && first_non_digit(s@) == Some(character),
                Err(PhoneNumberError::ReservedPrefix { prefix }) => s@.len() == 9
                    && first_non_digit(s@) is None && is_reserved_prefix(
                    digit_values(s@)[0] as int,
                    digit_values(s@)[1] as int,
                ) && prefix@ == s@.subrange(0, 2),
            },
    {
        let chars = chars_of(s);
        if chars.len() != 9 {
            return Err(PhoneNumberError::WrongLength { actual: chars.len() });
        }
        let digits = match read_digits(chars.as_slice()) {
            Ok(d) => d,
            Err(c) => return Err(PhoneNumberError::NonDigitCharacter { character: c }),
        };
        proof {
            lemma_all_digits_first_non_digit(s@);
            assert(all_decimal(digits@));
        }
        let arr: [u8; 9] = [
            digits[0],
            digits[1],
            digits[2],
            digits[3],
            digits[4],
            digits[5],
            digits[6],
            digits[7],
            digits[8],
        ];
        assert(arr@ =~= digits@);
        proof {
            assert(digits_text(digits@.subrange(0, 2)) =~= s@.subrange(0, 2)) by {
                assert forall|i: int| 0 <= i < 2 implies digits_text(digits@.subrange(0, 2))[i]
                    == s@.subrange(0, 2)[i] by {
                    assert(crate::text::is_digit_char(s@[i]));
                }
            }
        }
        PhoneNumber::from_digits(arr)
    }

    /// The number as `+48 NNN NNN NNN`.
    pub fn as_str(&self) -> (r: String)
        ensures
            r@ == phone_text(self@),
            is_phone_digits(self@),
    {
        proof {
            use_type_invariant(self);
        }
        let a: [u8; 3] = [self.0[0], self.0[1], self.0[2]];
        let b: [u8; 3] = [self.0[3], self.0[4], self.0[5]];
        let c: [u8; 3] = [self.0[6], self.0[7], self.0[8]];
        assert(a@ =~= self@.subrange(0, 3));
        assert(b@ =~= self@.subrange(3, 6));
        assert(c@ =~= self@.subrange(6, 9));
        let mut s = String::new();
        s.push('+');
        s.push('4');
        s.push('8');
        s.push(' ');
        push_digits(&mut s, &a);
        s.push(' ');
        push_digits(&mut s, &b);
        s.push(' ');
        push_digits(&mut s, &c);
        assert(s@ =~= phone_text(self@));
        s
    }

    /// The number as `+48 NNN NNN NNN`.
    pub fn to_string(&self) -> (r: String)
        ensures
            r@ == phone_text(self@),
            is_phone_digits(self@),
    {
        self.as_str()
    }
}

fn mobile_prefix(i: usize) -> (r: (u8, u8))
    requires
        i < 13,
    ensures
        r == mobile_prefixes()[i as int],
{
    let prefixes: [(u8, u8); 13] = [
        (4, 5),
        (5, 0),
        (5, 1),
        (5, 3),
        (5, 7),
        (6, 0),
        (6, 6),
        (6, 9),
        (7, 2),
        (7, 3),
        (7, 8),
        (7, 9),
        (8, 8),
    ];
    prefixes[i]
}

/// A random mobile number: a prefix from the mobile list and seven random digits. No
/// mobile prefix is reserved, so the first draw always gives a number.
pub fn generate_phone_number(rng: &mut StdRng) -> (r: PhoneNumber)
    ensures
        is_phone_digits(r@),
        exists|i: int| 0 <= i < 13 && mobile_prefixes()[i] == (r@[0], r@[1]),
{
    let i = random_index(rng, 13);
    let prefix = mobile_prefix(i);
    let digits: [u8; 9] = [
        prefix.0,
        prefix.1,
        random_u8_in(rng, 0, 9),
        random_u8_in(rng, 0, 9),
        random_u8_in(rng, 0, 9),
        random_u8_in(rng, 0, 9),
        random_u8_in(rng, 0, 9),
        random_u8_in(rng, 0, 9),
        random_u8_in(rng, 0, 9),
    ];
    match PhoneNumber::from_digits(digits) {
        Ok(number) => {
            proof {
                use_type_invariant(&number);
                assert(mobile_prefixes()[i as int] == (number@[0], number@[1]));
            }
            number
        },
        Err(_) => vstd::pervasive::unreached(),
    }
}

/// The message of an error.
pub open spec fn phone_error_text(e: PhoneNumberError) -> Seq<char> {
    match e {
        PhoneNumberError::WrongLength { actual } => "phone number must be exactly 9 digits, got "@ + decimal_text(actual as nat),
        PhoneNumberError::NonDigitCharacter { character } => "phone number must contain only digits, fount '"@ + seq![character] + "'"@,
        PhoneNumberError::ReservedPrefix { prefix } => "'"@ + prefix@ + "' is a reserved prefix (emergency, service, or premium-rate) and cannot be used for a synthetic mobile number"@,
    }
}

impl PhoneNumberError {
    /// The message of the error.
    pub fn to_string(&self) -> (r: String)
        ensures
            r@ == phone_error_text(*self),
    {
        let r = match self {
            PhoneNumberError::WrongLength { actual } => {
                let mut s = String::new();
                s.append("phone number must be exactly 9 digits, got ");
                push_decimal(&mut s, *actual as u64);
                s
            },
            PhoneNumberError::NonDigitCharacter { character } => {
                let mut s = String::new();
                s.append("phone number must contain only digits, fount '");
                s.push(*character);
                s.append("'");
                s
            },
            PhoneNumberError::ReservedPrefix { prefix } => {
                let mut s = String::new();
                s.append("'");
                s.append(prefix.as_str());
                s.append("' is a reserved prefix (emergency, service, or premium-rate) and cannot be used for a synthetic mobile number");
                s
            },
        };
        proof {
            assert(r@ =~= phone_error_text(*self));
        }
        r
    }
}

} // verus!
