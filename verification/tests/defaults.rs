use chrono::Datelike;
use pl_testdata::calendar::DateOfBirth;
use pl_testdata::dto::{GenerateForm, GenerateRequest};
use pl_testdata::email::{EmailAddress, ReservedDomain};
use pl_testdata::generate::{generate_pesel, GenerationError, PeselConstraints};
use pl_testdata::lang::Lang;
use pl_testdata::nip::NipError;
use pl_testdata::person::{generate_person, PersonConstraints};
use pl_testdata::pesel::Gender;
use pl_testdata::profile::generate_test_profile;
use pl_testdata::service::{generate_people, generate_people_with_seed};
use pl_testdata::templates::{escape, page, PageContext};
use rand::rngs::StdRng;
use rand::SeedableRng;

fn date(y: i32, m: u32, d: u32) -> DateOfBirth {
    DateOfBirth::new(y, m, d).unwrap()
}

fn unescape(r: &str) -> String {
    r.replace("&quot;", "\"")
        .replace("&gt;", ">")
        .replace("&lt;", "<")
        .replace("&amp;", "&")
}

#[test]
fn without_a_range_a_pesel_is_born_18_to_90_years_ago() {
    let this_year = chrono::Local::now().year();
    let mut rng = StdRng::seed_from_u64(11);
    for _ in 0..50 {
        let constraints = PeselConstraints {
            gender: None,
            date_range: None,
        };
        let pesel = generate_pesel(&mut rng, &constraints).unwrap();
        let year = pesel.date_of_birth().year();
        assert!(year >= this_year - 91 && year <= this_year - 17);
    }
}

#[test]
fn without_a_range_a_person_and_a_profile_are_generated() {
    let mut rng = StdRng::seed_from_u64(12);
    let constraints = PersonConstraints {
        gender: Some(Gender::Male),
        date_range: None,
    };
    let person = generate_person(&mut rng, &constraints).unwrap();
    assert_eq!(person.gender, Gender::Male);
    let profile = generate_test_profile(&mut rng, &constraints).unwrap();
    assert_eq!(profile.person.pesel.gender(), Gender::Male);
}

#[test]
fn refused_generation_leaves_the_generator_untouched() {
    let constraints = PeselConstraints {
        gender: None,
        date_range: Some((date(2000, 1, 1), date(1990, 1, 1))),
    };
    let mut rng = StdRng::seed_from_u64(5);
    let err = generate_pesel(&mut rng, &constraints).unwrap_err();
    assert!(matches!(err, GenerationError::InvalidDateRange { .. }));
    assert_eq!(rng, StdRng::seed_from_u64(5));

    let person_constraints = PersonConstraints {
        gender: None,
        date_range: Some((date(1700, 1, 1), date(1990, 1, 1))),
    };
    assert!(generate_person(&mut rng, &person_constraints).is_err());
    assert!(generate_test_profile(&mut rng, &person_constraints).is_err());
    assert_eq!(rng, StdRng::seed_from_u64(5));
}

#[test]
fn people_are_generated_from_the_returned_seed() {
    let request = GenerateRequest {
        count: Some(4),
        ..Default::default()
    };
    let (people, seed) = generate_people(&request).unwrap();
    let (again, same_seed) = generate_people_with_seed(&request, seed).unwrap();
    assert_eq!(same_seed, seed);
    assert_eq!(again, people);
    let (other, other_seed) = generate_people_with_seed(&request, 77).unwrap();
    assert_eq!(other_seed, 77);
    assert_eq!(other.len(), 4);
}

#[test]
fn requested_seed_overrides_nothing_else() {
    let request = GenerateRequest {
        seed: Some(9),
        count: Some(3),
        ..Default::default()
    };
    let a = generate_people(&request).unwrap();
    let b = generate_people_with_seed(&request, 9).unwrap();
    assert_eq!(a.1, 9);
    assert_eq!(a, b);
}

#[test]
fn unencodable_message_writes_digits_past_nine_as_characters() {
    let err = NipError::UnencodableDigits {
        first_nine: [1, 2, 3, 4, 5, 6, 7, 8, 10],
    };
    assert_eq!(
        err.to_string(),
        "prefix 12345678: has no valid NIP checksum digit (weighted sum is congruent to 10 mod 11)"
    );
}

#[test]
fn email_drops_foreign_letters_and_symbols() {
    let address = EmailAddress::new("José+1", ReservedDomain::ExampleCom);
    assert_eq!(address.as_str(), "jos1@example.com");
}

#[test]
fn email_local_part_is_stable_under_rebuilding() {
    for raw in ["Żółć Ąę", "!!!", "anna.nowak", "Łukasz-Nowak 12"] {
        let first = EmailAddress::new(raw, ReservedDomain::ExampleOrg);
        let text = first.as_str();
        let local = text.split('@').next().unwrap();
        let second = EmailAddress::new(local, ReservedDomain::ExampleOrg);
        assert_eq!(second.as_str(), text);
    }
}

#[test]
fn escaping_is_undone_by_replacing_the_entities() {
    for s in ["a<b>&\"c\"", "&amp; is already an entity", "plain", "", "&&<<>>\"\""] {
        let r = escape(s);
        assert!(!r.contains('<') && !r.contains('>') && !r.contains('"'));
        assert_eq!(unescape(&r), s);
        assert_eq!(r == s, !s.contains(['&', '<', '>', '"']));
    }
}

#[test]
fn a_blank_form_is_shown_as_no_form() {
    for lang in [Lang::Pl, Lang::En] {
        let blank = GenerateForm::default();
        let with_blank = page(PageContext {
            lang,
            person_results: None,
            submitted_form: Some(&blank),
            error: None,
        });
        let without = page(PageContext {
            lang,
            person_results: None,
            submitted_form: None,
            error: None,
        });
        assert_eq!(with_blank, without);
        assert!(without.contains(r#"id="seed" name="seed" min="0" value="""#));
    }
}
