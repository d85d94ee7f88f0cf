use pl_testdata::address::{PostalCode, PostalCodeError};
use pl_testdata::calendar::{DateOfBirth, DateOfBirthError};
use pl_testdata::document::{IdDocumentNumber, IdDocumentNumberError};
use pl_testdata::email::{EmailAddress, ReservedDomain};
use pl_testdata::iban::{mod97_fold, Iban, IbanError};
use pl_testdata::nip::{checksum_digit as nip_checksum_digit, Nip, NipError};
use pl_testdata::pesel::{checksum_digit, Gender, Pesel, PeselError};
use pl_testdata::phone::{PhoneNumber, PhoneNumberError};

// ---- Gender ----

#[test]
fn male_display_as_male() {
    assert_eq!(Gender::Male.to_string(), "Male");
}

#[test]
fn female_display_as_female() {
    assert_eq!(Gender::Female.to_string(), "Female");
}

#[test]
fn genders_are_equal_to_themselves() {
    assert_eq!(Gender::Male, Gender::Male);
    assert_eq!(Gender::Female, Gender::Female);
}

// ---- DateOfBirth ----

#[test]
fn accepts_an_ordinary_valid_date() {
    let dob = DateOfBirth::new(1990, 6, 15).unwrap();
    assert_eq!(dob.to_string(), "1990-06-15");
}

#[test]
fn accepts_leap_day_in_a_leap_year() {
    assert!(DateOfBirth::new(2000, 2, 29).is_ok());
    assert!(DateOfBirth::new(2004, 2, 29).is_ok());
}

#[test]
fn rejects_leap_day_in_a_non_leap_year() {
    assert!(DateOfBirth::new(1900, 2, 29).is_err());
    assert!(DateOfBirth::new(2001, 2, 29).is_err());
}

#[test]
fn rejects_month_thirteen() {
    let err = DateOfBirth::new(1990, 13, 1).unwrap_err();
    assert_eq!(
        err,
        DateOfBirthError::InvalidCalendarDate {
            year: 1990,
            month: 13,
            day: 1
        }
    );
}

#[test]
fn rejects_day_zero_and_day_thirty_two() {
    assert!(DateOfBirth::new(1990, 1, 0).is_err());
    assert!(DateOfBirth::new(1990, 1, 32).is_err());
}

#[test]
fn rejects_april_thirty_first() {
    assert!(DateOfBirth::new(1990, 4, 31).is_err());
}

#[test]
fn date_of_birth_accessors_give_back_the_parts() {
    let dob = DateOfBirth::new(1888, 1, 2).unwrap();
    assert_eq!((dob.year(), dob.month(), dob.day()), (1888, 1, 2));
}

#[test]
fn date_text_pads_and_signs_years_outside_four_digits() {
    assert_eq!(DateOfBirth::new(33, 3, 7).unwrap().to_string(), "0033-03-07");
    assert_eq!(DateOfBirth::new(-1, 12, 31).unwrap().to_string(), "-0001-12-31");
    assert_eq!(DateOfBirth::new(10000, 1, 1).unwrap().to_string(), "+10000-01-01");
}

#[test]
fn rejects_years_outside_the_represented_range() {
    assert!(DateOfBirth::new(262142, 12, 31).is_ok());
    assert!(DateOfBirth::new(262143, 1, 1).is_err());
    assert!(DateOfBirth::new(-262143, 1, 1).is_ok());
    assert!(DateOfBirth::new(-262144, 12, 31).is_err());
}

#[test]
fn dates_order_chronologically() {
    let a = DateOfBirth::new(1999, 12, 31).unwrap();
    let b = DateOfBirth::new(2000, 1, 1).unwrap();
    assert!(a < b);
}

// ---- PESEL ----

#[test]
fn parses_a_known_valid_pesel() {
    let pesel = Pesel::parse("44051401359").unwrap();
    assert_eq!(pesel.date_of_birth().to_string(), "1944-05-14");
    assert_eq!(pesel.gender(), Gender::Male);
}

#[test]
fn lib_from_parts_roundtrips_through_parse() {
    let dob = DateOfBirth::new(1990, 6, 15).unwrap();
    let built = Pesel::from_parts(dob, Gender::Female, 42).unwrap();

    let reparsed = Pesel::parse(&built.to_string()).unwrap();
    assert_eq!(reparsed.date_of_birth(), dob);
    assert_eq!(reparsed.gender(), Gender::Female);
}

#[test]
fn encodes_1900s_century_with_no_month_offset() {
    let dob = DateOfBirth::new(1944, 5, 14).unwrap();
    let pesel = Pesel::from_parts(dob, Gender::Male, 135).unwrap();
    assert_eq!(&pesel.to_string()[2..4], "05");
}

#[test]
fn encodes_2000s_century_with_plus_twenty_month_offset() {
    let dob = DateOfBirth::new(2005, 3, 14).unwrap();
    let pesel = Pesel::from_parts(dob, Gender::Male, 1).unwrap();
    assert_eq!(&pesel.to_string()[2..4], "23");
}

#[test]
fn encodes_1800s_century_with_plus_eighty_month_offset() {
    let dob = DateOfBirth::new(1888, 1, 1).unwrap();
    let pesel = Pesel::from_parts(dob, Gender::Female, 1).unwrap();
    assert_eq!(&pesel.to_string()[2..4], "81");
    assert_eq!(pesel.date_of_birth().to_string(), "1888-01-01");
}

#[test]
fn gender_digit_parity_matches_gender() {
    let dob = DateOfBirth::new(1990, 1, 1).unwrap();
    let male = Pesel::from_parts(dob, Gender::Male, 1).unwrap();
    let female = Pesel::from_parts(dob, Gender::Female, 1).unwrap();
    assert_eq!(male.gender(), Gender::Male);
    assert_eq!(female.gender(), Gender::Female);
}

#[test]
fn lib_rejects_wrong_length() {
    assert_eq!(
        Pesel::parse("123").unwrap_err(),
        PeselError::WrongLength { actual: 3 }
    );
}

#[test]
fn lib_rejects_non_digit_characters() {
    let err = Pesel::parse("4405140135X").unwrap_err();
    assert_eq!(err, PeselError::NonDigitCharacter { character: 'X' });
}

#[test]
fn lib_rejects_bad_checksum() {
    let err = Pesel::parse("44051401350").unwrap_err();
    assert_eq!(
        err,
        PeselError::ChecksumMismatch {
            expected: 9,
            actual: 0
        }
    );
}

#[test]
fn rejects_invalid_encoded_month() {
    let mut digits = [4u8, 4, 9, 9, 1, 4, 0, 1, 3, 5, 0];
    let checksum = checksum_digit(&digits[0..10].try_into().unwrap());
    digits[10] = checksum;
    let s: String = digits.iter().map(|d| (b'0' + d) as char).collect();

    let err = Pesel::parse(&s).unwrap_err();
    assert_eq!(err, PeselError::InvalidEncodedMonth { encoded_month: 99 });
}

#[test]
fn from_parts_rejects_serial_over_999() {
    let dob = DateOfBirth::new(1990, 1, 1).unwrap();
    let err = Pesel::from_parts(dob, Gender::Male, 1000).unwrap_err();
    assert_eq!(err, PeselError::SerialOutOfRange { serial: 1000 });
}

#[test]
fn from_parts_rejects_years_pesel_cannot_encode() {
    let dob = DateOfBirth::new(1799, 12, 31).unwrap();
    assert_eq!(
        Pesel::from_parts(dob, Gender::Male, 1).unwrap_err(),
        PeselError::YearOutOfRange { year: 1799 }
    );
    let dob = DateOfBirth::new(2300, 1, 1).unwrap();
    assert_eq!(
        Pesel::from_parts(dob, Gender::Female, 1).unwrap_err(),
        PeselError::YearOutOfRange { year: 2300 }
    );
}

#[test]
fn rejects_an_encoded_date_that_does_not_exist() {
    // 1990-02-30: month 02, day 30, with a matching check digit.
    let mut digits = [9u8, 0, 0, 2, 3, 0, 0, 1, 2, 3, 0];
    digits[10] = checksum_digit(&digits[0..10].try_into().unwrap());
    let s: String = digits.iter().map(|d| (b'0' + d) as char).collect();
    assert_eq!(
        Pesel::parse(&s).unwrap_err(),
        PeselError::InvalidEncodedDate {
            year: 1990,
            month: 2,
            day: 30
        }
    );
}

#[test]
fn pesel_checksum_of_a_known_number() {
    assert_eq!(checksum_digit(&[4, 4, 0, 5, 1, 4, 0, 1, 3, 5]), 9);
}

#[test]
fn every_century_round_trips_through_parse() {
    for (y, m, d) in [(1800, 1, 1), (1999, 12, 31), (2000, 2, 29), (2150, 7, 4), (2299, 12, 31)] {
        let dob = DateOfBirth::new(y, m, d).unwrap();
        for gender in [Gender::Male, Gender::Female] {
            let built = Pesel::from_parts(dob, gender, 999).unwrap();
            let reparsed = Pesel::parse(&built.as_str()).unwrap();
            assert_eq!(reparsed, built);
            assert_eq!(reparsed.date_of_birth(), dob);
            assert_eq!(reparsed.gender(), gender);
        }
    }
}

// ---- NIP ----

fn nine_digits(n: u32) -> [u8; 9] {
    let s = format!("{n:09}");
    std::array::from_fn(|i| s.as_bytes()[i] - b'0')
}

#[test]
fn checksum_is_none_for_a_known_unencodable_prefix() {
    let unencodable = (0u32..2000)
        .map(nine_digits)
        .find(|digits| nip_checksum_digit(digits).is_none())
        .expect("an unencodable prefix exists within the first 2000 candidates");

    assert_eq!(nip_checksum_digit(&unencodable), None);
}

#[test]
fn checksum_is_some_for_a_known_encodable_prefix() {
    let prefix = [1, 2, 3, 4, 5, 6, 3, 2, 1];
    assert_eq!(nip_checksum_digit(&prefix), Some(8));
}

#[test]
fn from_digits_roundtrips_through_parse() {
    let prefix = [1, 2, 3, 4, 5, 6, 3, 2, 1];
    let nip = Nip::from_digits(prefix).unwrap();
    assert_eq!(nip.to_string(), "1234563218");

    let reparsed = Nip::parse(&nip.to_string()).unwrap();
    assert_eq!(reparsed, nip);
}

#[test]
fn from_digits_rejects_an_unencodable_prefix() {
    let unencodable = (0u32..1_000_000_000)
        .map(nine_digits)
        .find(|digits| nip_checksum_digit(digits).is_none())
        .unwrap();

    let err = Nip::from_digits(unencodable).unwrap_err();
    assert_eq!(
        err,
        NipError::UnencodableDigits {
            first_nine: unencodable
        }
    );
}

#[test]
fn nip_rejects_wrong_length() {
    assert_eq!(
        Nip::parse("123").unwrap_err(),
        NipError::WrongLength { actual: 3 }
    );
}

#[test]
fn nip_rejects_non_digit_characters() {
    let err = Nip::parse("123456321X").unwrap_err();
    assert_eq!(err, NipError::NonDigitCharacter { character: 'X' });
}

#[test]
fn nip_rejects_bad_checksum() {
    let err = Nip::parse("1234563219").unwrap_err();
    assert_eq!(
        err,
        NipError::ChecksumMismatch {
            expected: 8,
            actual: 9
        }
    );
}

#[test]
fn nip_parse_reports_an_unencodable_prefix() {
    let unencodable = (0u32..2000)
        .map(nine_digits)
        .find(|digits| nip_checksum_digit(digits).is_none())
        .unwrap();
    let s: String = unencodable
        .iter()
        .map(|d| (b'0' + d) as char)
        .chain(['0'])
        .collect();
    assert_eq!(
        Nip::parse(&s).unwrap_err(),
        NipError::UnencodableDigits {
            first_nine: unencodable
        }
    );
}

// ---- Postal code ----

#[test]
fn from_digits_displays_in_nn_nnn_form() {
    let code = PostalCode::from_digits([3, 0, 0, 0, 1]);
    assert_eq!(code.to_string(), "30-001");
}

#[test]
fn parse_round_trips_through_display() {
    let code = PostalCode::parse("00-001").unwrap();
    assert_eq!(code.to_string(), "00-001");
}

#[test]
fn address_rejects_wrong_length() {
    assert_eq!(
        PostalCode::parse("123").unwrap_err(),
        PostalCodeError::WrongLength { actual: 3 }
    );
}

#[test]
fn rejects_missing_separator() {
    assert_eq!(
        PostalCode::parse("001234").unwrap_err(),
        PostalCodeError::MissingSeparator
    )
}

#[test]
fn address_rejects_non_digit_character() {
    let err = PostalCode::parse("AB-001").unwrap_err();
    assert_eq!(err, PostalCodeError::NonDigitCharacter { character: 'A' });
}

#[test]
fn postal_code_rejects_a_non_digit_after_the_dash() {
    let err = PostalCode::parse("12-0X1").unwrap_err();
    assert_eq!(err, PostalCodeError::NonDigitCharacter { character: 'X' });
}

// ---- Identity document ----

#[test]
fn document_from_parts_roundtrips_through_parse() {
    let letters = [0u8, 1, 2]; // "ABC"
    let rest = [1, 2, 3, 4, 5];
    let built = IdDocumentNumber::from_parts(letters, rest);

    let reparsed = IdDocumentNumber::parse(&built.to_string()).unwrap();
    assert_eq!(reparsed, built);
}

#[test]
fn as_str_formats_letters_uppercase_and_digits_after() {
    let built = IdDocumentNumber::from_parts([0, 1, 2], [1, 2, 3, 4, 5]);
    let s = built.to_string();
    assert_eq!(s.len(), 9);
    assert!(s[0..3].chars().all(|c| c.is_ascii_uppercase()));
    assert!(s[3..9].chars().all(|c| c.is_ascii_digit()));
}

#[test]
fn id_document_check_digit_of_a_known_number() {
    let built = IdDocumentNumber::from_parts([0, 1, 2], [1, 2, 3, 4, 5]);
    assert_eq!(built.as_str(), "ABC412345");
}

#[test]
fn document_rejects_wrong_length() {
    assert_eq!(
        IdDocumentNumber::parse("ABC123").unwrap_err(),
        IdDocumentNumberError::WrongLength { actual: 6 }
    );
}

#[test]
fn rejects_lowercase_letter_section() {
    // checksum will not even be reached; letter validity is checked first
    let err = IdDocumentNumber::parse("abc123456").unwrap_err();
    assert_eq!(
        err,
        IdDocumentNumberError::NonLetterCharacter { character: 'a' }
    );
}

#[test]
fn rejects_non_digit_in_digit_section() {
    let valid = IdDocumentNumber::from_parts([0, 1, 2], [1, 2, 3, 4, 5]).to_string();
    let mut bytes = valid.into_bytes();
    bytes[5] = b'X'; // corrupt a digit position
    let corrupted = String::from_utf8(bytes).unwrap();

    let err = IdDocumentNumber::parse(&corrupted).unwrap_err();
    assert_eq!(
        err,
        IdDocumentNumberError::NonDigitCharacter { character: 'X' }
    );
}

#[test]
fn document_rejects_bad_checksum() {
    let valid = IdDocumentNumber::from_parts([0, 1, 2], [1, 2, 3, 4, 5]).to_string();
    let mut bytes = valid.into_bytes();
    let last = bytes.len() - 1;
    bytes[last] = if bytes[last] == b'9' {
        b'8'
    } else {
        bytes[last] + 1
    };
    let corrupted = String::from_utf8(bytes).unwrap();

    assert!(matches!(
        IdDocumentNumber::parse(&corrupted),
        Err(IdDocumentNumberError::ChecksumMismatch { .. })
    ));
}

// ---- IBAN ----

#[test]
fn iban_from_parts_roundtrips_through_parse() {
    let bank_branch = [1, 0, 9, 0, 1, 0, 1, 4];
    let account = [0, 0, 0, 0, 0, 7, 1, 2, 1, 9, 8, 1, 2, 8, 7, 4];
    let built = Iban::from_parts(bank_branch, account);

    let reparsed = Iban::parse(&built.to_string()).unwrap();
    assert_eq!(reparsed, built);
}

#[test]
fn as_str_starts_with_pl_and_is_28_characters() {
    let built = Iban::from_parts([1, 0, 9, 0, 1, 0, 1, 4], [0; 16]);
    let s = built.to_string();
    assert_eq!(s.len(), 28);
    assert!(s.starts_with("PL"));
    assert!(s[2..].chars().all(|c| c.is_ascii_digit()));
}

#[test]
fn iban_rejects_wrong_length() {
    assert_eq!(
        Iban::parse("PL1234").unwrap_err(),
        IbanError::WrongLength { actual: 6 }
    );
}

#[test]
fn rejects_wrong_country_code() {
    let built = Iban::from_parts([1, 0, 9, 0, 1, 0, 1, 4], [0; 16]);
    let s = built.to_string();
    let swapped = format!("DE{}", &s[2..]);
    let err = Iban::parse(&swapped).unwrap_err();
    assert_eq!(
        err,
        IbanError::MissingCountryCode {
            found: "DE".to_string()
        }
    );
}

#[test]
fn iban_rejects_non_digit_character() {
    let built = Iban::from_parts([1, 0, 9, 0, 1, 0, 1, 4], [0; 16]);
    let mut s = built.to_string();
    s.replace_range(5..6, "X");
    let err = Iban::parse(&s).unwrap_err();
    assert_eq!(err, IbanError::NonDigitCharacter { character: 'X' });
}

#[test]
fn iban_rejects_bad_checksum() {
    let built = Iban::from_parts([1, 0, 9, 0, 1, 0, 1, 4], [0; 16]);
    let mut s = built.to_string();
    let corrupted_digit = if &s[2..3] == "9" { "8" } else { "9" };
    s.replace_range(2..3, corrupted_digit);

    assert!(matches!(
        Iban::parse(&s),
        Err(IbanError::ChecksumMismatch { .. })
    ));
}

#[test]
fn mod97_fold_matches_hand_computed_small_cases() {
    assert_eq!(mod97_fold(&[9, 8, 1, 2]), 9812 % 97);
    assert_eq!(mod97_fold(&[1, 0, 0]), 3);
}

#[test]
fn iban_of_a_known_account_passes_the_mod97_test() {
    let built = Iban::from_parts(
        [1, 0, 9, 0, 1, 0, 1, 4],
        [0, 0, 0, 0, 0, 7, 1, 2, 1, 9, 8, 1, 2, 8, 7, 4],
    );
    let s = built.to_string();
    assert_eq!(s, "PL61109010140000071219812874");
    let rearranged: Vec<u8> = s[4..]
        .bytes()
        .map(|b| b - b'0')
        .chain([2, 5, 2, 1])
        .chain(s[2..4].bytes().map(|b| b - b'0'))
        .collect();
    assert_eq!(mod97_fold(&rearranged), 1);
}

// ---- Phone ----

#[test]
fn from_digits_formats_with_plus_48_and_grouping() {
    let number = PhoneNumber::from_digits([5, 0, 1, 2, 3, 4, 5, 6, 7]).unwrap();
    assert_eq!(number.to_string(), "+48 501 234 567");
}

#[test]
fn rejects_reserved_prefix() {
    let err = PhoneNumber::from_digits([9, 9, 1, 2, 3, 4, 5, 6, 7]).unwrap_err();
    assert_eq!(
        err,
        PhoneNumberError::ReservedPrefix {
            prefix: "99".to_string()
        }
    );
}

#[test]
fn parse_rejects_wrong_length() {
    assert_eq!(
        PhoneNumber::parse("12345").unwrap_err(),
        PhoneNumberError::WrongLength { actual: 5 }
    );
}

#[test]
fn parse_rejects_non_digit_character() {
    let err = PhoneNumber::parse("50123456X").unwrap_err();
    assert_eq!(err, PhoneNumberError::NonDigitCharacter { character: 'X' });
}

#[test]
fn parse_round_trips_through_display_digits() {
    let number = PhoneNumber::from_digits([5, 1, 9, 8, 7, 6, 5, 4, 3]).unwrap();
    let digits_only: String = number
        .to_string()
        .chars()
        .filter(|c| c.is_ascii_digit())
        .collect();
    let reparsed = PhoneNumber::parse(&digits_only[2..]).unwrap();
    assert_eq!(reparsed, number);
}

#[test]
fn parse_rejects_every_reserved_prefix() {
    for prefix in ["70", "80", "81", "99", "11"] {
        let err = PhoneNumber::parse(&format!("{prefix}1234567")).unwrap_err();
        assert_eq!(
            err,
            PhoneNumberError::ReservedPrefix {
                prefix: prefix.to_string()
            }
        );
    }
}

// ---- Email ----

#[test]
fn new_lowercases_and_formats_the_address() {
    let email = EmailAddress::new("Anna.Nowak42", ReservedDomain::ExampleCom);
    assert_eq!(email.to_string(), "anna.nowak42@example.com");
}

#[test]
fn new_transliterates_polish_diacritics() {
    let email = EmailAddress::new("Łukasz.Żółć", ReservedDomain::ExampleOrg);
    assert_eq!(email.to_string(), "lukasz.zolc@example.org");
}

#[test]
fn new_falls_back_to_user_for_an_empty_local_part() {
    let email = EmailAddress::new("", ReservedDomain::ExampleNet);
    assert_eq!(email.to_string(), "user@example.net");
}

#[test]
fn new_drops_characters_that_cannot_stand_in_a_local_part() {
    let email = EmailAddress::new("J@n K-o_w!", ReservedDomain::ExampleCom);
    assert_eq!(email.to_string(), "jnkow@example.com");
    let email = EmailAddress::new("#$%", ReservedDomain::ExampleCom);
    assert_eq!(email.to_string(), "user@example.com");
}

#[test]
fn sanitizing_twice_changes_nothing() {
    let once = EmailAddress::new("Zażółć.Gęślą.Jaźń", ReservedDomain::ExampleCom).to_string();
    let local = once.split('@').next().unwrap();
    let twice = EmailAddress::new(local, ReservedDomain::ExampleCom).to_string();
    assert_eq!(once, twice);
}

#[test]
fn reserved_domains_are_the_documentation_domains() {
    let names: Vec<&str> = ReservedDomain::ALL.iter().map(|d| d.as_str()).collect();
    assert_eq!(names, vec!["example.com", "example.org", "example.net"]);
}
