use pl_testdata::address::{Address, PostalCode};
use pl_testdata::calendar::DateOfBirth;
use pl_testdata::document::IdDocumentNumber;
use pl_testdata::dto::{GenderDto, GenerateForm, GenerateRequest, PersonDto};
use pl_testdata::email::{EmailAddress, ReservedDomain};
use pl_testdata::error::ApiError;
use pl_testdata::generate::GenerationError;
use pl_testdata::iban::Iban;
use pl_testdata::lang::Lang;
use pl_testdata::nip::Nip;
use pl_testdata::person::Person;
use pl_testdata::pesel::{Gender, Pesel};
use pl_testdata::phone::PhoneNumber;
use pl_testdata::profile::TestProfile;
use pl_testdata::service::{generate_people, parse_iso_date};
use pl_testdata::templates::{escape, page, PageContext};

fn anna_profile() -> TestProfile {
    let dob = DateOfBirth::new(1990, 6, 15).unwrap();
    let pesel = Pesel::from_parts(dob, Gender::Female, 42).unwrap();
    let person = Person {
        first_name: "Anna".to_string(),
        last_name: "Nowak".to_string(),
        gender: Gender::Female,
        date_of_birth: dob,
        pesel,
    };
    let nip = Nip::from_digits([1, 2, 3, 4, 5, 6, 3, 2, 1]).unwrap();
    let address = Address {
        city: "Kraków".to_string(),
        postal_code: PostalCode::from_digits([3, 0, 0, 0, 1]),
    };
    let phone = PhoneNumber::from_digits([5, 0, 1, 2, 3, 4, 5, 6, 7]).unwrap();
    let email = EmailAddress::new("anna.nowak", ReservedDomain::ExampleCom);
    let id_document = IdDocumentNumber::from_parts([0, 1, 2], [1, 2, 3, 4, 5]);
    let iban = Iban::from_parts(
        [1, 0, 9, 0, 1, 0, 1, 4],
        [0, 0, 0, 0, 0, 7, 1, 2, 1, 9, 8, 1, 2, 8, 7, 4],
    );
    TestProfile {
        person,
        nip,
        address,
        phone,
        email,
        id_document,
        iban,
    }
}

#[test]
fn person_maps_to_dto_with_display_formatted_fields() {
    let profile = anna_profile();
    let pesel_text = profile.person.pesel.to_string();
    let iban_text = profile.iban.to_string();
    let dto = PersonDto::new(profile);

    assert_eq!(dto.first_name, "Anna");
    assert_eq!(dto.gender, "Female");
    assert_eq!(dto.date_of_birth, "1990-06-15");
    assert_eq!(dto.pesel, pesel_text);
    assert_eq!(dto.nip, "1234563218");
    assert_eq!(dto.city, "Kraków");
    assert_eq!(dto.postal_code, "30-001");
    assert_eq!(dto.phone, "+48 501 234 567");
    assert_eq!(dto.email, "anna.nowak@example.com");
    assert_eq!(dto.id_document, "ABC412345");
    assert_eq!(dto.iban, iban_text);
}

#[test]
fn dto_carries_the_pesel_and_iban_digits() {
    let dto = PersonDto::new(anna_profile());
    assert_eq!(dto.last_name, "Nowak");
    assert_eq!(dto.pesel.len(), 11);
    assert!(dto.pesel.starts_with("900615"));
    assert!(dto.iban.starts_with("PL"));
    assert_eq!(dto.iban.len(), 28);
}

#[test]
fn blank_form_becomes_a_fully_unconstrained_request() {
    let form = GenerateForm::default();
    let request = form.into_request().unwrap();

    assert!(request.gender.is_none());
    assert!(request.min_date.is_none());
    assert!(request.seed.is_none());
    assert!(request.count.is_none());
}

#[test]
fn form_rejects_unknown_gender_value() {
    let form = GenerateForm {
        gender: "nonbinary-typo".to_string(),
        ..Default::default()
    };
    let err = form.into_request().unwrap_err();
    assert_eq!(err.field, "gender");
}

#[test]
fn form_passes_through_iso_dates_unchanged() {
    let form = GenerateForm {
        min_date: "1990-06-01".to_string(),
        max_date: "1999-12-31".to_string(),
        ..Default::default()
    };
    let request = form.into_request().unwrap();
    assert_eq!(request.min_date.as_deref(), Some("1990-06-01"));
    assert_eq!(request.max_date.as_deref(), Some("1999-12-31"));
}

#[test]
fn form_rejects_a_malformed_iso_date() {
    let form = GenerateForm {
        min_date: "01/06/1990".to_string(),
        ..Default::default()
    };
    let err = form.into_request().unwrap_err();
    assert_eq!(err.field, "min_date");
}

#[test]
fn form_reads_gender_seed_and_count() {
    let form = GenerateForm {
        gender: "female".to_string(),
        seed: "42".to_string(),
        count: "3".to_string(),
        ..Default::default()
    };
    let request = form.into_request().unwrap();
    assert_eq!(request.gender, Some(GenderDto::Female));
    assert_eq!(request.seed, Some(42));
    assert_eq!(request.count, Some(3));

    let male = GenerateForm {
        gender: "male".to_string(),
        ..Default::default()
    };
    assert_eq!(male.into_request().unwrap().gender, Some(GenderDto::Male));
}

#[test]
fn form_rejects_a_count_that_is_not_a_byte() {
    let form = GenerateForm {
        count: "256".to_string(),
        ..Default::default()
    };
    let err = form.into_request().unwrap_err();
    assert_eq!(err.field, "count");
    assert_eq!(err.value, "256");
}

#[test]
fn form_rejects_a_seed_with_a_sign() {
    let form = GenerateForm {
        seed: "-1".to_string(),
        ..Default::default()
    };
    let err = form.into_request().unwrap_err();
    assert_eq!(err.field, "seed");
}

#[test]
fn gender_dto_converts_to_the_domain_gender() {
    assert_eq!(Gender::from(GenderDto::Male), Gender::Male);
    assert_eq!(Gender::from(GenderDto::Female), Gender::Female);
}

#[test]
fn invalid_field_message_names_the_value_and_the_field() {
    let err = ApiError::InvalidField {
        field: "min_date",
        value: "not-a-date".to_string(),
    };
    assert_eq!(err.message(), "'not-a-date' is not a valid value for 'min_date'");
}

#[test]
fn invalid_count_message_names_the_bounds() {
    let err = ApiError::InvalidCount { count: 0, max: 50 };
    assert_eq!(err.message(), "count must be between 1 and 50, got 0");
}

#[test]
fn generation_error_message_is_the_domain_reason() {
    let min = DateOfBirth::new(2000, 1, 1).unwrap();
    let max = DateOfBirth::new(1990, 1, 1).unwrap();
    let err: ApiError = GenerationError::InvalidDateRange { min, max }.into();
    assert!(err.message().starts_with("invalid date range"));
}

fn request(
    gender: Option<GenderDto>,
    min_date: Option<&str>,
    max_date: Option<&str>,
    seed: Option<u64>,
    count: Option<u8>,
) -> GenerateRequest {
    GenerateRequest {
        gender,
        min_date: min_date.map(|s| s.to_string()),
        max_date: max_date.map(|s| s.to_string()),
        seed,
        count,
    }
}

#[test]
fn omitted_count_gives_one_person() {
    let (people, seed) = generate_people(&request(None, None, None, Some(7), None)).unwrap();
    assert_eq!(people.len(), 1);
    assert_eq!(seed, 7);
}

#[test]
fn dates_in_range_are_respected() {
    let (people, _) = generate_people(&request(
        Some(GenderDto::Male),
        Some("1990-06-01"),
        Some("1990-06-30"),
        Some(3),
        Some(10),
    ))
    .unwrap();
    for person in &people {
        assert_eq!(person.gender, "Male");
        assert!(person.date_of_birth.starts_with("1990-06-"));
    }
}

#[test]
fn parse_iso_date_reads_a_valid_date() {
    let d = parse_iso_date("min_date", "1999-12-31").unwrap();
    assert_eq!((d.year(), d.month(), d.day()), (1999, 12, 31));
}

#[test]
fn parse_iso_date_refuses_an_impossible_date() {
    let err = parse_iso_date("min_date", "1990-13-40").unwrap_err();
    assert!(matches!(err, ApiError::InvalidField { field: "min_date", .. }));
    assert!(parse_iso_date("max_date", "1990-02-30").is_err());
    assert!(parse_iso_date("max_date", "1990-02").is_err());
    assert!(parse_iso_date("max_date", "").is_err());
}

#[test]
fn lang_path_segments_and_switch() {
    assert_eq!(Lang::Pl.path_segment(), "pl");
    assert_eq!(Lang::En.path_segment(), "en");
    assert_eq!(Lang::Pl.other(), Lang::En);
    assert_eq!(Lang::En.other(), Lang::Pl);
    assert_eq!(Lang::En.messages().html_lang, "en");
    assert_eq!(Lang::Pl.messages().html_lang, "pl");
}

#[test]
fn escape_writes_html_entities() {
    assert_eq!(escape("a<b>&\"c\""), "a&lt;b&gt;&amp;&quot;c&quot;");
    assert_eq!(escape("plain"), "plain");
}

#[test]
fn error_notice_is_escaped() {
    let html = page(PageContext {
        lang: Lang::Pl,
        person_results: None,
        submitted_form: None,
        error: Some("invalid date range: <x>".to_string()),
    });
    assert!(html.contains(r#"class="error""#));
    assert!(html.contains("invalid date range: &lt;x&gt;"));
    assert!(html.contains(r#"<html lang="pl">"#));
}
