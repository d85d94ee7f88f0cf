//! The values that cross the HTTP boundary: generated people as plain text fields,
//! generation requests, and the HTML form that produces them.
use vstd::prelude::*;
use vstd::string::*;

use crate::address::postal_code_text;
use crate::calendar::date_text;
use crate::document::id_document_text;
use crate::email::email_text;
use crate::iban::iban_text;
use crate::pesel::{gender_text, Gender};
use crate::phone::phone_text;
use crate::profile::TestProfile;
use crate::text::{
    all_digit_chars, chars_of, is_digit_char, parse_unsigned, parse_unsigned_text, text_equals,
    digits_text,
};

verus! {

/// A generated person with every field as text.
#[derive(Debug, Clone, PartialEq)]
pub struct PersonDto {
    pub first_name: String,
    pub last_name: String,
    pub gender: String,
    pub date_of_birth: String,
    pub pesel: String,
    pub nip: String,
    pub city: String,
    pub postal_code: String,
    pub phone: String,
    pub email: String,
    pub id_document: String,
    pub iban: String,
}

/// Each field of the text form is the text of the profile's corresponding value.
pub open spec fn describes(dto: PersonDto, p: TestProfile) -> bool {
    &&& dto.first_name@ == p.person.first_name@
    &&& dto.last_name@ == p.person.last_name@
    &&& dto.gender@ == gender_text(p.person.gender)
    &&& dto.date_of_birth@ == date_text(p.person.date_of_birth@)
    &&& dto.pesel@ == digits_text(p.person.pesel@)
    &&& dto.nip@ == digits_text(p.nip@)
    &&& dto.city@ == p.address.city@
    &&& dto.postal_code@ == postal_code_text(p.address.postal_code@)
    &&& dto.phone@ == phone_text(p.phone@)
    &&& dto.email@ == email_text(p.email@.0, p.email@.1)
    &&& dto.id_document@ == id_document_text(p.id_document@.0, p.id_document@.1)
    &&& dto.iban@ == iban_text(p.iban@)
}

impl PersonDto {
    /// The text form of a profile.
    pub fn new(profile: TestProfile) -> (r: Self)
        ensures
            describes(r, profile),
    {
        let ghost p = profile;
        let TestProfile { person, nip, address, phone, email, id_document, iban } = profile;
        PersonDto {
            gender: person.gender.to_string(),
            date_of_birth: person.date_of_birth.to_string(),
            pesel: person.pesel.to_string(),
            first_name: person.first_name,
            last_name: person.last_name,
            nip: nip.to_string(),
            postal_code: address.postal_code.to_string(),
            city: address.city,
            phone: phone.to_string(),
            email: email.to_string(),
            id_document: id_document.to_string(),
            iban: iban.to_string(),
        }
    }
}

/// The notice that every response carries.
pub const SYNTHETIC_DATA_DISCLAIMER: &'static str = "Synthetic test data generated for software testing only. Does not represent a real individual.";

/// The response to a generation request.
#[derive(Debug)]
pub struct GenerateResponse {
    pub disclaimer: &'static str,
    pub resolved_seed: u64,
    pub people: Vec<PersonDto>,
}

/// A gender as requests name it.
#[derive(Debug, Clone, Copy, PartialEq, Eq, Structural)]
pub enum GenderDto {
    Male,
    Female,
}

/// The gender that a requested gender stands for.
pub open spec fn gender_of(g: GenderDto) -> Gender {
    match g {
        GenderDto::Male => Gender::Male,
        GenderDto::Female => Gender::Female,
    }
}

impl From<GenderDto> for Gender {
    fn from(g: GenderDto) -> (r: Self) {
        match g {
            GenderDto::Male => Gender::Male,
            GenderDto::Female => Gender::Female,
        }
    }
}

impl vstd::std_specs::convert::FromSpecImpl<GenderDto> for Gender {
    open spec fn obeys_from_spec() -> bool {
        true
    }

    open spec fn from_spec(g: GenderDto) -> Gender {
        gender_of(g)
    }
}

/// A request for generated people; `None` leaves a field to its default.
#[derive(Debug, Default)]
pub struct GenerateRequest {
    pub gender: Option<GenderDto>,
    pub min_date: Option<String>,
    pub max_date: Option<String>,
    pub seed: Option<u64>,
    pub count: Option<u8>,
}

/// The fields of the HTML form, as submitted; an empty field is left to its default.
#[derive(Debug, Clone)]
pub struct GenerateForm {
    pub gender: String,
    pub min_date: String,
    pub max_date: String,
    pub seed: String,
    pub count: String,
}

/// Every field of the form is empty.
pub open spec fn is_blank_form(f: GenerateForm) -> bool {
    &&& f.gender@.len() == 0
    &&& f.min_date@.len() == 0
    &&& f.max_date@.len() == 0
    &&& f.seed@.len() == 0
    &&& f.count@.len() == 0
}

impl Default for GenerateForm {
    /// The form with every field empty.
    fn default() -> (r: Self)
        ensures
            is_blank_form(r),
    {
        GenerateForm {
            gender: String::new(),
            min_date: String::new(),
            max_date: String::new(),
            seed: String::new(),
            count: String::new(),
        }
    }
}

/// A form field that holds no valid value: its name and what it held.
#[derive(Debug)]
pub struct FormParseError {
    pub field: &'static str,
    pub value: String,
}

/// What the gender field gives: nothing when empty, `male` or `female`, and `None`
/// for anything else.
pub open spec fn gender_field(s: Seq<char>) -> Option<Option<GenderDto>> {
    if s.len() == 0 {
        Some(None)
    } else if s == "male"@ {
        Some(Some(GenderDto::Male))
    } else if s == "female"@ {
        Some(Some(GenderDto::Female))
    } else {
        None
    }
}

/// What a number field gives: nothing when empty, the number where it parses as one
/// no larger than `max`, and `None` otherwise.
pub open spec fn number_field(s: Seq<char>, max: nat) -> Option<Option<nat>> {
    if s.len() == 0 {
        Some(None)
    } else if parse_unsigned(s, max) is Some {
        Some(Some(parse_unsigned(s, max)->0))
    } else {
        None
    }
}

/// `YYYY-MM-DD` with decimal digits: exactly three dash-separated parts of four, two
/// and two digits.
pub open spec fn is_iso_date_text(s: Seq<char>) -> bool {
    &&& s.len() == 10
    &&& s[4] == '-'
    &&& s[7] == '-'
    &&& all_digit_chars(s.subrange(0, 4))
    &&& all_digit_chars(s.subrange(5, 7))
    &&& all_digit_chars(s.subrange(8, 10))
}

/// What a date field gives: nothing when empty, the text where it is `YYYY-MM-DD`,
/// and `None` otherwise.
pub open spec fn date_field(s: Seq<char>) -> Option<Option<Seq<char>>> {
    if s.len() == 0 {
        Some(None)
    } else if is_iso_date_text(s) {
        Some(Some(s))
    } else {
        None
    }
}

pub open spec fn opt_u64(o: Option<u64>) -> Option<nat> {
    match o {
        Some(v) => Some(v as nat),
        None => None,
    }
}

pub open spec fn opt_u8(o: Option<u8>) -> Option<nat> {
    match o {
        Some(v) => Some(v as nat),
        None => None,
    }
}

pub open spec fn opt_text(o: Option<String>) -> Option<Seq<char>> {
    match o {
        Some(v) => Some(v@),
        None => None,
    }
}

/// The first field of the form, in the order gender, seed, count, minimum date,
/// maximum date, that holds no valid value, with its name.
pub open spec fn first_invalid_field(f: GenerateForm) -> Option<(Seq<char>, Seq<char>)> {
    if gender_field(f.gender@) is None {
        Some(("gender"@, f.gender@))
    } else if number_field(f.seed@, u64::MAX as nat) is None {
        Some(("seed"@, f.seed@))
    } else if number_field(f.count@, u8::MAX as nat) is None {
        Some(("count"@, f.count@))
    } else if date_field(f.min_date@) is None {
        Some(("min_date"@, f.min_date@))
    } else if date_field(f.max_date@) is None {
        Some(("max_date"@, f.max_date@))
    } else {
        None
    }
}

fn non_empty(s: &str) -> (r: Option<&str>)
    ensures
        match r {
            Some(t) => s@.len() > 0 && t@ == s@,
            None => s@.len() == 0,
        },
{
    if s.is_empty() {
        None
    } else {
        Some(s)
    }
}

fn parse_field_u64(field: &'static str, raw: &str) -> (r: Result<Option<u64>, FormParseError>)
    ensures
        match r {
            Ok(v) => number_field(raw@, u64::MAX as nat) == Some(opt_u64(v)),
            Err(e) => number_field(raw@, u64::MAX as nat) is None && e.field == field && e.value@
                == raw@,
        },
{
    match non_empty(raw) {
        None => Ok(None),
        Some(s) => {
            let chars = chars_of(s);
            match parse_unsigned_text(chars.as_slice(), u64::MAX) {
                Some(v) => Ok(Some(v)),
                None => Err(FormParseError { field, value: String::from_str(s) }),
            }
        },
    }
}

fn parse_field_u8(field: &'static str, raw: &str) -> (r: Result<Option<u8>, FormParseError>)
    ensures
        match r {
            Ok(v) => number_field(raw@, u8::MAX as nat) == Some(opt_u8(v)),
            Err(e) => number_field(raw@, u8::MAX as nat) is None && e.field == field && e.value@
                == raw@,
        },
{
    match non_empty(raw) {
        None => Ok(None),
        Some(s) => {
            let chars = chars_of(s);
            match parse_unsigned_text(chars.as_slice(), 255) {
                Some(v) => Ok(Some(v as u8)),
                None => Err(FormParseError { field, value: String::from_str(s) }),
            }
        },
    }
}

fn all_ascii_digits(chars: &[char], from: usize, to: usize) -> (r: bool)
    requires
        from <= to <= chars@.len(),
    ensures
        r == all_digit_chars(chars@.subrange(from as int, to as int)),
{
    let mut i = from;
    while i < to
        invariant
            from <= i <= to,
            to <= chars@.len(),
            all_digit_chars(chars@.subrange(from as int, i as int)),
        decreases to - i,
    {
        if !('0' <= chars[i] && chars[i] <= '9') {
            assert(!is_digit_char(chars@.subrange(from as int, to as int)[i - from]));
            return false;
        }
        i = i + 1;
        assert forall|j: int| 0 <= j < i - from implies is_digit_char(
            #[trigger] chars@.subrange(from as int, i as int)[j],
        ) by {
            if j < i - 1 - from {
                assert(chars@.subrange(from as int, i as int)[j] == chars@.subrange(
                    from as int,
                    i - 1,
                )[j]);
            }
        }
    }
    true
}

fn parse_iso_date_field(field: &'static str, raw: &str) -> (r: Result<
    Option<String>,
    FormParseError,
>)
    ensures
        match r {
            Ok(v) => date_field(raw@) == Some(opt_text(v)),
            Err(e) => date_field(raw@) is None && e.field == field && e.value@ == raw@,
        },
{
    match non_empty(raw) {
        None => Ok(None),
        Some(s) => {
            let chars = chars_of(s);
            if chars.len() == 10 && chars[4] == '-' && chars[7] == '-' && all_ascii_digits(
                chars.as_slice(),
                0,
                4,
            ) && all_ascii_digits(chars.as_slice(), 5, 7) && all_ascii_digits(
                chars.as_slice(),
                8,
                10,
            ) {
                Ok(Some(String::from_str(s)))
            } else {
                Err(FormParseError { field, value: String::from_str(raw) })
            }
        },
    }
}

impl GenerateForm {
    /// The request that the form describes, or the first field that holds no valid
    /// value.
    pub fn into_request(self) -> (r: Result<GenerateRequest, FormParseError>)
        ensures
            match r {
                Ok(req) => first_invalid_field(self) is None && gender_field(self.gender@) == Some(
                    req.gender,
                ) && number_field(self.seed@, u64::MAX as nat) == Some(opt_u64(req.seed))
                    && number_field(self.count@, u8::MAX as nat) == Some(opt_u8(req.count))
                    && date_field(self.min_date@) == Some(opt_text(req.min_date)) && date_field(
                    self.max_date@,
                ) == Some(opt_text(req.max_date)),
                Err(e) => first_invalid_field(self) == Some((e.field@, e.value@)),
            },
    {
        let ghost form = self;
        let gender = if self.gender.as_str().is_empty() {
            None
        } else if text_equals(self.gender.as_str(), "male") {
            Some(GenderDto::Male)
        } else if text_equals(self.gender.as_str(), "female") {
            Some(GenderDto::Female)
        } else {
            proof {
                reveal_strlit("gender");
            }
            return Err(FormParseError { field: "gender", value: self.gender });
        };

        let seed = match parse_field_u64("seed", self.seed.as_str()) {
            Ok(v) => v,
            Err(e) => return Err(e),
        };
        let count = match parse_field_u8("count", self.count.as_str()) {
            Ok(v) => v,
            Err(e) => return Err(e),
        };
        let min_date = match parse_iso_date_field("min_date", self.min_date.as_str()) {
            Ok(v) => v,
            Err(e) => return Err(e),
        };
        let max_date = match parse_iso_date_field("max_date", self.max_date.as_str()) {
            Ok(v) => v,
            Err(e) => return Err(e),
        };

        Ok(GenerateRequest { gender, min_date, max_date, seed, count })
    }
}

} // verus!
