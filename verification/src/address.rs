//! Polish postal addresses: a city and a postal code written `NN-NNN`.
use rand::rngs::StdRng;
use vstd::prelude::*;
use vstd::string::*;

use crate::random::{random_index, random_u8_in};
use crate::text::{
    all_decimal, chars_of, digit_values, digits_text, first_non_digit,
    lemma_all_digits_first_non_digit, lemma_digits_text_values, push_digits, read_digits,
};

use crate::text::{decimal_text, push_decimal};

verus! {

/// A postal code: five digits.
#[derive(Debug, Clone, Copy, PartialEq, Eq)]
pub struct PostalCode([u8; 5]);

/// Why a text does not make a postal code.
#[derive(Debug, Clone, PartialEq, Eq)]
pub enum PostalCodeError {
    WrongLength { actual: usize },
    NonDigitCharacter { character: char },
    MissingSeparator,
}

/// The characters of a postal code text without its separator.
pub open spec fn postal_code_digit_chars(s: Seq<char>) -> Seq<char> {
    s.subrange(0, 2) + s.subrange(3, 6)
}

/// The `NN-NNN` text of five digits.
pub open spec fn postal_code_text(d: Seq<u8>) -> Seq<char> {
    digits_text(d.subrange(0, 2)) + seq!['-'] + digits_text(d.subrange(2, 5))
}

/// Reading the text of a postal code gives back its digits.
pub proof fn lemma_postal_code_text_round_trip(d: Seq<u8>)
    requires
        d.len() == 5,
        all_decimal(d),
    ensures
        postal_code_text(d).len() == 6,
        postal_code_text(d)[2] == '-',
        first_non_digit(postal_code_digit_chars(postal_code_text(d))) is None,
        digit_values(postal_code_digit_chars(postal_code_text(d))) == d,
{
    let t = postal_code_text(d);
    assert(postal_code_digit_chars(t) =~= digits_text(d));
    lemma_digits_text_values(d);
}

impl View for PostalCode {
    type V = Seq<u8>;

    closed spec fn view(&self) -> Seq<u8> {
        self.0@
    }
}

impl PostalCode {
    #[verifier::type_invariant]
    spec fn is_valid(self) -> bool {
        all_decimal(self.0@)
    }

    /// The postal code of five digits.
    pub fn from_digits(digits: [u8; 5]) -> (r: Self)
        requires
            all_decimal(digits@),
        ensures
            r@ == digits@,
    {
        PostalCode(digits)
    }

    /// Reads a postal code: two digits, a dash and three digits.
    pub fn parse(s: &str) -> (r: Result<Self, PostalCodeError>)
        ensures
            match r {
                Ok(p) => s@.len() == 6 && s@[2] == '-' && first_non_digit(
                    postal_code_digit_chars(s@),
                ) is None && p@ == digit_values(postal_code_digit_chars(s@)),
                Err(PostalCodeError::WrongLength { actual }) => s@.len() != 6 && actual
                    == s@.len(),
                Err(PostalCodeError::MissingSeparator) => s@.len() == 6 && s@[2] != '-',
                Err(PostalCodeError::NonDigitCharacter { character }) => s@.len() == 6 && s@[2]
                    == '-' && first_non_digit(postal_code_digit_chars(s@)) == Some(character),
            },
    {
        let chars = chars_of(s);
        if chars.len() != 6 {
            return Err(PostalCodeError::WrongLength { actual: chars.len() });
        }
        if chars[2] != '-' {
            return Err(PostalCodeError::MissingSeparator);
        }
        let digit_chars: Vec<char> = vec![chars[0], chars[1], chars[3], chars[4], chars[5]];
        assert(digit_chars@ =~= postal_code_digit_chars(s@));
        let digits = match read_digits(digit_chars.as_slice()) {
            Ok(d) => d,
            Err(c) => return Err(PostalCodeError::NonDigitCharacter { character: c }),
        };
        proof {
            lemma_all_digits_first_non_digit(postal_code_digit_chars(s@));
            assert(all_decimal(digits@));
        }
        let arr: [u8; 5] = [digits[0], digits[1], digits[2], digits[3], digits[4]];
        assert(arr@ =~= digits@);
        Ok(PostalCode(arr))
    }

    /// The postal code as `NN-NNN`.
    pub fn as_str(&self) -> (r: String)
        ensures
            r@ == postal_code_text(self@),
            all_decimal(self@),
    {
        proof {
            use_type_invariant(self);
        }
        let head: [u8; 2] = [self.0[0], self.0[1]];
        let tail: [u8; 3] = [self.0[2], self.0[3], self.0[4]];
        assert(head@ =~= self@.subrange(0, 2));
        assert(tail@ =~= self@.subrange(2, 5));
        let mut s = String::new();
        push_digits(&mut s, &head);
        s.push('-');
        push_digits(&mut s, &tail);
        assert(s@ =~= postal_code_text(self@));
        s
    }

    /// The postal code as `NN-NNN`.
    pub fn to_string(&self) -> (r: String)
        ensures
            r@ == postal_code_text(self@),
            all_decimal(self@),
    {
        self.as_str()
    }
}

/// A postal address.
#[derive(Debug, Clone, PartialEq, Eq)]
pub struct Address {
    pub city: String,
    pub postal_code: PostalCode,
}

/// The cities that generated addresses lie in.
pub open spec fn polish_cities() -> Seq<Seq<char>> {
    seq![
        "Warszawa"@,
        "Kraków"@,
        "Łódź"@,
        "Wrocław"@,
        "Poznań"@,
        "Gdańsk"@,
        "Olsztyn"@,
        "Szczecin"@,
        "Bydgoszcz"@,
        "Lublin"@,
        "Białystok"@,
        "Katowice"@,
        "Gdynia"@,
        "Częstochowa"@,
        "Radom"@,
        "Sosnowiec"@,
        "Toruń"@,
        "Kielce"@,
        "Rzeszów"@,
        "Gliwice"@,
        "Zabrze"@,
    ]
}

fn city_name(i: usize) -> (r: &'static str)
    requires
        i < 21,
    ensures
        r@ == polish_cities()[i as int],
{
    let cities: [&'static str; 21] = [
        "Warszawa",
        "Kraków",
        "Łódź",
        "Wrocław",
        "Poznań",
        "Gdańsk",
        "Olsztyn",
        "Szczecin",
        "Bydgoszcz",
        "Lublin",
        "Białystok",
        "Katowice",
        "Gdynia",
        "Częstochowa",
        "Radom",
        "Sosnowiec",
        "Toruń",
        "Kielce",
        "Rzeszów",
        "Gliwice",
        "Zabrze",
    ];
    cities[i]
}

/// A random address: a city from the list and a random postal code.
pub fn generate_address(rng: &mut StdRng) -> (r: Address)
    ensures
        polish_cities().contains(r.city@),
        all_decimal(r.postal_code@),
{
    let i = random_index(rng, 21);
    let city = String::from_str(city_name(i));
    let digits: [u8; 5] = [
        random_u8_in(rng, 0, 9),
        random_u8_in(rng, 0, 9),
        random_u8_in(rng, 0, 9),
        random_u8_in(rng, 0, 9),
        random_u8_in(rng, 0, 9),
    ];
    let postal_code = PostalCode::from_digits(digits);
    assert(polish_cities()[i as int] == city@);
    Address { city, postal_code }
}

/// The message of an error.
pub open spec fn postal_code_error_text(e: PostalCodeError) -> Seq<char> {
    match e {
        PostalCodeError::WrongLength { actual } => "postal code must be exactly 6 characters (NN-NNN), got "@ + decimal_text(actual as nat),
        PostalCodeError::NonDigitCharacter { character } => "postal code must contain only digits and a dash, found '"@ + seq![character] + "'"@,
        PostalCodeError::MissingSeparator => "postal code must have a dash between the 2nd and 3rd digit, e.g '00-001'"@,
    }
}

impl PostalCodeError {
    /// The message of the error.
    pub fn to_string(&self) -> (r: String)
        ensures
            r@ == postal_code_error_text(*self),
    {
        let r = match self {
            PostalCodeError::WrongLength { actual } => {
                let mut s = String::new();
                s.append("postal code must be exactly 6 characters (NN-NNN), got ");
                push_decimal(&mut s, *actual as u64);
                s
            },
            PostalCodeError::NonDigitCharacter { character } => {
                let mut s = String::new();
                s.append("postal code must contain only digits and a dash, found '");
                s.push(*character);
                s.append("'");
                s
            },
            PostalCodeError::MissingSeparator => {
                let mut s = String::new();
                s.append("postal code must have a dash between the 2nd and 3rd digit, e.g '00-001'");
                s
            },
        };
        proof {
            assert(r@ =~= postal_code_error_text(*self));
        }
        r
    }
}

} // verus!
