//! PESEL, the Polish personal identification number: eleven digits that encode a date
//! of birth, a serial number, the holder's gender and a check digit.
use vstd::prelude::*;
use vstd::string::*;

use crate::calendar::{is_calendar_date, is_date, DateOfBirth};
use crate::text::{
    all_decimal, char_of_digit, chars_of, digit_values, digits_text, first_non_digit, is_digit_char,
    lemma_all_digits_first_non_digit, lemma_digits_text_values, push_digits, read_digits,
};

use crate::text::{decimal_text, push_decimal, push_signed, push_signed_zero_padded, push_zero_padded, signed_text, signed_zero_padded, zero_padded};

verus! {

#[derive(Debug, Clone, Copy, PartialEq, Eq, Structural)]
pub enum Gender {
    Male,
    Female,
}

/// The English name of a gender.
pub open spec fn gender_text(g: Gender) -> Seq<char> {
    match g {
        Gender::Male => "Male"@,
        Gender::Female => "Female"@,
    }
}

impl Gender {
    /// The English name of the gender: `Male` or `Female`.
    pub fn to_string(&self) -> (r: String)
        ensures
            r@ == gender_text(*self),
    {
        match self {
            Gender::Male => String::from_str("Male"),
            Gender::Female => String::from_str("Female"),
        }
    }
}

/// A valid PESEL number.
#[derive(Debug, Clone, Copy, PartialEq, Eq)]
pub struct Pesel([u8; 11]);

/// Why a text, or a date, gender and serial, do not make a PESEL number.
#[derive(Debug, Clone, PartialEq, Eq)]
pub enum PeselError {
    WrongLength { actual: usize },
    NonDigitCharacter { character: char },
    ChecksumMismatch { expected: u8, actual: u8 },
    InvalidEncodedMonth { encoded_month: u8 },
    InvalidEncodedDate { year: i32, month: u32, day: u32 },
    YearOutOfRange { year: i32 },
    SerialOutOfRange { serial: u16 },
}

/// The sum of the first ten digits weighted 1, 3, 7, 9, 1, 3, 7, 9, 1, 3.
pub open spec fn pesel_weighted_sum(d: Seq<u8>) -> int {
    d[0] * 1 + d[1] * 3 + d[2] * 7 + d[3] * 9 + d[4] * 1 + d[5] * 3 + d[6] * 7 + d[7] * 9 + d[8]
        * 1 + d[9] * 3
}

/// The check digit of the first ten digits.
pub open spec fn pesel_check_digit(d: Seq<u8>) -> int {
    (10 - pesel_weighted_sum(d) % 10) % 10
}

/// What is added to the month of a birth in `year`, where PESEL encodes that year.
pub open spec fn pesel_month_offset(year: int) -> Option<int> {
    if 1800 <= year <= 1899 {
        Some(80)
    } else if 1900 <= year <= 1999 {
        Some(0)
    } else if 2000 <= year <= 2099 {
        Some(20)
    } else if 2100 <= year <= 2199 {
        Some(40)
    } else if 2200 <= year <= 2299 {
        Some(60)
    } else {
        None
    }
}

/// The first year of the century and the month that an encoded month stands for.
pub open spec fn pesel_month_decoding(e: int) -> Option<(int, int)> {
    if 1 <= e <= 12 {
        Some((1900, e))
    } else if 21 <= e <= 32 {
        Some((2000, e - 20))
    } else if 41 <= e <= 52 {
        Some((2100, e - 40))
    } else if 61 <= e <= 72 {
        Some((2200, e - 60))
    } else if 81 <= e <= 92 {
        Some((1800, e - 80))
    } else {
        None
    }
}

/// The encoded month: the third and fourth digits.
pub open spec fn pesel_encoded_month(d: Seq<u8>) -> int {
    d[2] * 10 + d[3]
}

/// The date of birth that the digits encode.
pub open spec fn pesel_date(d: Seq<u8>) -> (int, int, int) {
    let cm = pesel_month_decoding(pesel_encoded_month(d)).unwrap();
    (cm.0 + d[0] * 10 + d[1], cm.1, d[4] * 10 + d[5])
}

/// The gender that the tenth digit encodes: odd for male, even for female.
pub open spec fn pesel_gender(d: Seq<u8>) -> Gender {
    if d[9] % 2 == 1 {
        Gender::Male
    } else {
        Gender::Female
    }
}

/// The digits of a valid PESEL number.
pub open spec fn is_pesel_digits(d: Seq<u8>) -> bool {
    &&& d.len() == 11
    &&& all_decimal(d)
    &&& d[10] == pesel_check_digit(d)
    &&& pesel_month_decoding(pesel_encoded_month(d)) is Some
    &&& is_date(pesel_date(d))
}

/// The digits of the PESEL number of a date of birth, gender and serial number.
pub open spec fn pesel_digits_for(date: (int, int, int), g: Gender, serial: int) -> Seq<u8> {
    let yy = date.0 % 100;
    let e = date.1 + pesel_month_offset(date.0).unwrap();
    let first = seq![
        (yy / 10) as u8,
        (yy % 10) as u8,
        (e / 10) as u8,
        (e % 10) as u8,
        (date.2 / 10) as u8,
        (date.2 % 10) as u8,
        ((serial / 100) % 10) as u8,
        ((serial / 10) % 10) as u8,
        (serial % 10) as u8,
        (if g is Male {
            1u8
        } else {
            0u8
        }),
    ];
    first.push(pesel_check_digit(first) as u8)
}

/// What reading a text as a PESEL number gives: its digits, or the first of these
/// errors that applies, in this order.
pub open spec fn pesel_parse(s: Seq<char>) -> Result<Seq<u8>, PeselError> {
    if s.len() != 11 {
        Err(PeselError::WrongLength { actual: s.len() as usize })
    } else if first_non_digit(s) is Some {
        Err(PeselError::NonDigitCharacter { character: first_non_digit(s)->0 })
    } else {
        let d = digit_values(s);
        if d[10] != pesel_check_digit(d) {
            Err(
                PeselError::ChecksumMismatch {
                    expected: pesel_check_digit(d) as u8,
                    actual: d[10],
                },
            )
        } else if pesel_month_decoding(pesel_encoded_month(d)) is None {
            Err(PeselError::InvalidEncodedMonth { encoded_month: pesel_encoded_month(d) as u8 })
        } else if !is_date(pesel_date(d)) {
            Err(
                PeselError::InvalidEncodedDate {
                    year: pesel_date(d).0 as i32,
                    month: pesel_date(d).1 as u32,
                    day: pesel_date(d).2 as u32,
                },
            )
        } else {
            Ok(d)
        }
    }
}

/// The digits that a date of birth, gender and serial number are encoded in make a
/// valid PESEL number, which gives back that date of birth and gender.
pub proof fn lemma_pesel_encoding_decodes(date: (int, int, int), g: Gender, serial: int)
    requires
        is_date(date),
        1800 <= date.0 <= 2299,
        0 <= serial <= 999,
    ensures
        is_pesel_digits(pesel_digits_for(date, g, serial)),
        pesel_date(pesel_digits_for(date, g, serial)) == date,
        pesel_gender(pesel_digits_for(date, g, serial)) == g,
{
    let y = date.0;
    let yy = y % 100;
    let off = pesel_month_offset(y)->0;
    let e = date.1 + off;
    let first = pesel_digits_for(date, g, serial).take(10);
    let d = pesel_digits_for(date, g, serial);
    assert(0 <= yy < 100);
    assert(1 <= e <= 92);
    assert(d[0] == yy / 10 && d[1] == yy % 10);
    assert(d[2] == e / 10 && d[3] == e % 10);
    assert(d[4] == date.2 / 10 && d[5] == date.2 % 10);
    assert(d[0] * 10 + d[1] == yy);
    assert(pesel_encoded_month(d) == e);
    assert(pesel_month_decoding(e) == Some((y - yy, date.1)));
    assert(d[4] * 10 + d[5] == date.2);
    assert(pesel_date(d) == date);
    assert(first =~= d.subrange(0, 10));
    assert(pesel_weighted_sum(d) == pesel_weighted_sum(first));
    assert(0 <= pesel_check_digit(first) <= 9);
    assert(all_decimal(d));
}

/// Reading the text of a PESEL number gives back its digits.
pub proof fn lemma_pesel_text_parses(d: Seq<u8>)
    requires
        is_pesel_digits(d),
    ensures
        pesel_parse(digits_text(d)) == Ok::<Seq<u8>, PeselError>(d),
{
    lemma_digits_text_values(d);
}

/// The PESEL check digit is the one digit that makes the weighted sum of all eleven
/// digits, with weights 1, 3, 7, 9, 1, 3, 7, 9, 1, 3 and 1, a multiple of 10.
pub proof fn lemma_pesel_check_digit_completes_sum(d: Seq<u8>, c: int)
    requires
        d.len() >= 10,
        all_decimal(d),
        0 <= c <= 9,
    ensures
        0 <= pesel_check_digit(d) <= 9,
        (1 * d[0] + 3 * d[1] + 7 * d[2] + 9 * d[3] + 1 * d[4] + 3 * d[5] + 7 * d[6] + 9 * d[7]
            + 1 * d[8] + 3 * d[9] + 1 * c) % 10 == 0 <==> c == pesel_check_digit(d),
{
    let w = 1 * d[0] + 3 * d[1] + 7 * d[2] + 9 * d[3] + 1 * d[4] + 3 * d[5] + 7 * d[6] + 9 * d[7]
        + 1 * d[8] + 3 * d[9];
    assert(w == pesel_weighted_sum(d));
    assert(w >= 0);
    vstd::arithmetic::div_mod::lemma_fundamental_div_mod(w, 10);
    vstd::arithmetic::div_mod::lemma_fundamental_div_mod(w + c, 10);
}

/// A text of eleven decimal digits is refused for its check digit exactly when the
/// weighted sum of its digits, with weights 1, 3, 7, 9, 1, 3, 7, 9, 1, 3 and 1, is not a
/// multiple of 10; every text that reads as a PESEL number has such a sum.
pub proof fn lemma_pesel_parse_checks_weighted_sum(s: Seq<char>)
    requires
        s.len() == 11,
        first_non_digit(s) is None,
    ensures
        ({
            let d = digit_values(s);
            &&& (pesel_parse(s) matches Err(PeselError::ChecksumMismatch { .. })) <==> (1 * d[0]
                + 3 * d[1] + 7 * d[2] + 9 * d[3] + 1 * d[4] + 3 * d[5] + 7 * d[6] + 9 * d[7] + 1
                * d[8] + 3 * d[9] + 1 * d[10]) % 10 != 0
            &&& pesel_parse(s) is Ok ==> (1 * d[0] + 3 * d[1] + 7 * d[2] + 9 * d[3] + 1 * d[4] + 3
                * d[5] + 7 * d[6] + 9 * d[7] + 1 * d[8] + 3 * d[9] + 1 * d[10]) % 10 == 0
        }),
{
    let d = digit_values(s);
    lemma_all_digits_first_non_digit(s);
    assert(all_decimal(d)) by {
        assert forall|i: int| 0 <= i < d.len() implies #[trigger] d[i] <= 9 by {
            assert(is_digit_char(s[i]));
        }
    }
    lemma_pesel_check_digit_completes_sum(d, d[10] as int);
}

/// The number built from a date of birth, a gender and a serial writes, in order: the
/// last two digits of the year; the month plus the century's offset (80 for the 1800s,
/// 0, 20, 40 and 60 for the 1900s to the 2200s); the day; the serial as three digits;
/// 1 for a man or 0 for a woman; and a check digit that makes the weighted sum of all
/// eleven digits a multiple of 10.
pub proof fn lemma_pesel_digits_for_layout(date: (int, int, int), g: Gender, serial: int)
    requires
        is_date(date),
        1800 <= date.0 <= 2299,
        0 <= serial <= 999,
    ensures
        ({
            let d = pesel_digits_for(date, g, serial);
            &&& d.len() == 11
            &&& all_decimal(d)
            &&& 10 * d[0] + d[1] == date.0 % 100
            &&& 10 * d[2] + d[3] == date.1 + (if date.0 < 1900 {
                80int
            } else if date.0 < 2000 {
                0int
            } else if date.0 < 2100 {
                20int
            } else if date.0 < 2200 {
                40int
            } else {
                60int
            })
            &&& 10 * d[4] + d[5] == date.2
            &&& 100 * d[6] + 10 * d[7] + d[8] == serial
            &&& d[9] == (if g is Male {
                1int
            } else {
                0int
            })
            &&& (1 * d[0] + 3 * d[1] + 7 * d[2] + 9 * d[3] + 1 * d[4] + 3 * d[5] + 7 * d[6] + 9
                * d[7] + 1 * d[8] + 3 * d[9] + 1 * d[10]) % 10 == 0
        }),
{
    let d = pesel_digits_for(date, g, serial);
    lemma_pesel_encoding_decodes(date, g, serial);
    lemma_pesel_check_digit_completes_sum(d, d[10] as int);
}

/// The check digit of the first ten digits of a PESEL number.
pub fn checksum_digit(first_ten: &[u8; 10]) -> (r: u8)
    requires
        all_decimal(first_ten@),
    ensures
        r == pesel_check_digit(first_ten@),
{
    let sum: u32 = first_ten[0] as u32 * 1 + first_ten[1] as u32 * 3 + first_ten[2] as u32 * 7
        + first_ten[3] as u32 * 9 + first_ten[4] as u32 * 1 + first_ten[5] as u32 * 3
        + first_ten[6] as u32 * 7 + first_ten[7] as u32 * 9 + first_ten[8] as u32 * 1
        + first_ten[9] as u32 * 3;
    ((10 - (sum % 10)) % 10) as u8
}

fn encode_month(year: i32, month: u32) -> (r: Result<u32, PeselError>)
    requires
        month <= 12,
    ensures
        match r {
            Ok(e) => pesel_month_offset(year as int) is Some && e == month
                + pesel_month_offset(year as int)->0,
            Err(err) => pesel_month_offset(year as int) is None && err
                == PeselError::YearOutOfRange { year },
        },
{
    let offset: u32 = if 1800 <= year && year <= 1899 {
        80
    } else if 1900 <= year && year <= 1999 {
        0
    } else if 2000 <= year && year <= 2099 {
        20
    } else if 2100 <= year && year <= 2199 {
        40
    } else if 2200 <= year && year <= 2299 {
        60
    } else {
        return Err(PeselError::YearOutOfRange { year });
    };
    Ok(month + offset)
}

fn decode_month(encoded_month: u8) -> (r: Result<(i32, u32), PeselError>)
    ensures
        match r {
            Ok(cm) => pesel_month_decoding(encoded_month as int) == Some(
                (cm.0 as int, cm.1 as int),
            ),
            Err(e) => pesel_month_decoding(encoded_month as int) is None && e
                == PeselError::InvalidEncodedMonth { encoded_month },
        },
{
    let m = encoded_month as u32;
    if 1 <= m && m <= 12 {
        Ok((1900, m))
    } else if 21 <= m && m <= 32 {
        Ok((2000, m - 20))
    } else if 41 <= m && m <= 52 {
        Ok((2100, m - 40))
    } else if 61 <= m && m <= 72 {
        Ok((2200, m - 60))
    } else if 81 <= m && m <= 92 {
        Ok((1800, m - 80))
    } else {
        Err(PeselError::InvalidEncodedMonth { encoded_month })
    }
}

impl View for Pesel {
    type V = Seq<u8>;

    closed spec fn view(&self) -> Seq<u8> {
        self.0@
    }
}

impl Pesel {
    #[verifier::type_invariant]
    spec fn is_valid(self) -> bool {
        is_pesel_digits(self.0@)
    }

    /// The PESEL number of a date of birth, gender and serial number (0 to 999), for
    /// the years 1800 to 2299 that PESEL encodes.
    pub fn from_parts(date: DateOfBirth, gender: Gender, serial: u16) -> (r: Result<
        Self,
        PeselError,
    >)
        ensures
            match r {
                Ok(p) => serial <= 999 && 1800 <= date@.0 <= 2299 && p@ == pesel_digits_for(
                    date@,
                    gender,
                    serial as int,
                ) && 100 * p@[6] + 10 * p@[7] + p@[8] == serial,
                Err(e) => if serial > 999 {
                    e == PeselError::SerialOutOfRange { serial }
                } else {
                    !(1800 <= date@.0 <= 2299) && e == PeselError::YearOutOfRange {
                        year: date@.0 as i32,
                    }
                },
            },
    {
        if serial > 999 {
            return Err(PeselError::SerialOutOfRange { serial });
        }
        let year = date.year();
        let month = date.month();
        let day = date.day();
        let encoded_month = match encode_month(year, month) {
            Ok(e) => e,
            Err(e) => return Err(e),
        };
        let two_digit_year = (year % 100) as u32;

        let first_ten: [u8; 10] = [
            (two_digit_year / 10) as u8,
            (two_digit_year % 10) as u8,
            (encoded_month / 10) as u8,
            (encoded_month % 10) as u8,
            (day / 10) as u8,
            (day % 10) as u8,
            ((serial / 100) % 10) as u8,
            ((serial / 10) % 10) as u8,
            (serial % 10) as u8,
            match gender {
                Gender::Male => 1,
                Gender::Female => 0,
            },
        ];
        let check = checksum_digit(&first_ten);
        let digits: [u8; 11] = [
            first_ten[0],
            first_ten[1],
            first_ten[2],
            first_ten[3],
            first_ten[4],
            first_ten[5],
            first_ten[6],
            first_ten[7],
            first_ten[8],
            first_ten[9],
            check,
        ];
        proof {
            assert(first_ten@ =~= pesel_digits_for(date@, gender, serial as int).take(10));
            assert(digits@ =~= pesel_digits_for(date@, gender, serial as int));
            lemma_pesel_encoding_decodes(date@, gender, serial as int);
            lemma_pesel_digits_for_layout(date@, gender, serial as int);
        }
        Ok(Pesel(digits))
    }

    /// Reads a PESEL number: eleven decimal digits with a matching check digit that
    /// encode an existing date.
    pub fn parse(s: &str) -> (r: Result<Self, PeselError>)
        ensures
            match r {
                Ok(p) => pesel_parse(s@) == Ok::<Seq<u8>, PeselError>(p@),
                Err(e) => pesel_parse(s@) == Err::<Seq<u8>, PeselError>(e),
            },
    {
        let chars = chars_of(s);
        let char_count = chars.len();
        if char_count != 11 {
            return Err(PeselError::WrongLength { actual: char_count });
        }
        let digits = match read_digits(chars.as_slice()) {
            Ok(d) => d,
            Err(c) => return Err(PeselError::NonDigitCharacter { character: c }),
        };
        proof {
            lemma_all_digits_first_non_digit(s@);
            assert(all_decimal(digits@));
        }
        let first_ten: [u8; 10] = [
            digits[0],
            digits[1],
            digits[2],
            digits[3],
            digits[4],
            digits[5],
            digits[6],
            digits[7],
            digits[8],
            digits[9],
        ];
        let expected = checksum_digit(&first_ten);
        assert(pesel_weighted_sum(first_ten@) == pesel_weighted_sum(digits@));
        if expected != digits[10] {
            return Err(PeselError::ChecksumMismatch { expected, actual: digits[10] });
        }
        let encoded_month = digits[2] * 10 + digits[3];
        let (century_base, month) = match decode_month(encoded_month) {
            Ok(cm) => cm,
            Err(e) => return Err(e),
        };
        let year = century_base + (digits[0] as i32 * 10 + digits[1] as i32);
        let day = (digits[4] * 10 + digits[5]) as u32;
        match DateOfBirth::new(year, month, day) {
            Ok(_) => {},
            Err(_) => return Err(PeselError::InvalidEncodedDate { year, month, day }),
        }
        let arr: [u8; 11] = [
            digits[0],
            digits[1],
            digits[2],
            digits[3],
            digits[4],
            digits[5],
            digits[6],
            digits[7],
            digits[8],
            digits[9],
            digits[10],
        ];
        assert(arr@ =~= digits@);
        Ok(Pesel(arr))
    }

    /// The date of birth that the number encodes.
    pub fn date_of_birth(&self) -> (r: DateOfBirth)
        ensures
            r@ == pesel_date(self@),
            is_pesel_digits(self@),
    {
        proof {
            use_type_invariant(self);
        }
        let encoded_month = self.0[2] * 10 + self.0[3];
        let (century_base, month) = match decode_month(encoded_month) {
            Ok(cm) => cm,
            Err(_) => return vstd::pervasive::unreached(),
        };
        let year = century_base + (self.0[0] as i32 * 10 + self.0[1] as i32);
        let day = (self.0[4] * 10 + self.0[5]) as u32;
        match DateOfBirth::new(year, month, day) {
            Ok(d) => d,
            Err(_) => vstd::pervasive::unreached(),
        }
    }

    /// The gender that the number encodes.
    pub fn gender(&self) -> (r: Gender)
        ensures
            r == pesel_gender(self@),
            is_pesel_digits(self@),
    {
        proof {
            use_type_invariant(self);
        }
        if self.0[9] % 2 == 1 {
            Gender::Male
        } else {
            Gender::Female
        }
    }

    /// The eleven digits as text.
    pub fn as_str(&self) -> (r: String)
        ensures
            r@ == digits_text(self@),
            is_pesel_digits(self@),
    {
        proof {
            use_type_invariant(self);
        }
        let mut s = String::new();
        push_digits(&mut s, &self.0);
        assert(s@ =~= digits_text(self@));
        s
    }

    /// The eleven digits as text.
    pub fn to_string(&self) -> (r: String)
        ensures
            r@ == digits_text(self@),
            is_pesel_digits(self@),
    {
        self.as_str()
    }
}

/// The message of an error.
pub open spec fn pesel_error_text(e: PeselError) -> Seq<char> {
    match e {
        PeselError::WrongLength { actual } => "PESEL must be exactly 11 digits, got "@ + decimal_text(actual as nat),
        PeselError::NonDigitCharacter { character } => "PESEL must contain only digits, found '"@ + seq![character] + "'"@,
        PeselError::ChecksumMismatch { expected, actual } => "checksum mismatch: expected "@ + decimal_text(expected as nat) + ", got "@ + decimal_text(actual as nat),
        PeselError::InvalidEncodedMonth { encoded_month } => zero_padded(encoded_month as nat, 2) + " is not a valid PESEL-encoded month"@,
        PeselError::InvalidEncodedDate { year, month, day } => signed_zero_padded(year as int, 4) + "-"@ + zero_padded(month as nat, 2) + "-"@ + zero_padded(day as nat, 2) + " is not a valid calendar date"@,
        PeselError::YearOutOfRange { year } => "year "@ + signed_text(year as int) + " is outside the range PESEL can encode (1800-2299)"@,
        PeselError::SerialOutOfRange { serial } => "serial must be in 0..=999, got "@ + decimal_text(serial as nat),
    }
}

impl PeselError {
    /// The message of the error.
    pub fn to_string(&self) -> (r: String)
        ensures
            r@ == pesel_error_text(*self),
    {
        let r = match self {
            PeselError::WrongLength { actual } => {
                let mut s = String::new();
                s.append("PESEL must be exactly 11 digits, got ");
                push_decimal(&mut s, *actual as u64);
                s
            },
            PeselError::NonDigitCharacter { character } => {
                let mut s = String::new();
                s.append("PESEL must contain only digits, found '");
                s.push(*character);
                s.append("'");
                s
            },
            PeselError::ChecksumMismatch { expected, actual } => {
                let mut s = String::new();
                s.append("checksum mismatch: expected ");
                push_decimal(&mut s, *expected as u64);
                s.append(", got ");
                push_decimal(&mut s, *actual as u64);
                s
            },
            PeselError::InvalidEncodedMonth { encoded_month } => {
                let mut s = String::new();
                push_zero_padded(&mut s, *encoded_month as u64, 2);
                s.append(" is not a valid PESEL-encoded month");
                s
            },
            PeselError::InvalidEncodedDate { year, month, day } => {
                let mut s = String::new();
                push_signed_zero_padded(&mut s, *year as i64, 4);
                s.append("-");
                push_zero_padded(&mut s, *month as u64, 2);
                s.append("-");
                push_zero_padded(&mut s, *day as u64, 2);
                s.append(" is not a valid calendar date");
                s
            },
            PeselError::YearOutOfRange { year } => {
                let mut s = String::new();
                s.append("year ");
                push_signed(&mut s, *year as i64);
                s.append(" is outside the range PESEL can encode (1800-2299)");
                s
            },
            PeselError::SerialOutOfRange { serial } => {
                let mut s = String::new();
                s.append("serial must be in 0..=999, got ");
                push_decimal(&mut s, *serial as u64);
                s
            },
        };
        proof {
            assert(r@ =~= pesel_error_text(*self));
        }
        r
    }
}

} // verus!
