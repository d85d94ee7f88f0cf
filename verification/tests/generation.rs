use pl_testdata::address::{generate_address, PostalCode};
use pl_testdata::calendar::DateOfBirth;
use pl_testdata::document::{generate_id_document_number, IdDocumentNumber};
use pl_testdata::email::{generate_email, ReservedDomain};
use pl_testdata::generate::{
    default_date_range, default_date_range_from, generate_pesel, GenerationError,
    PeselConstraints,
};
use pl_testdata::iban::{generate_iban, Iban};
use pl_testdata::nip::{checksum_digit as nip_checksum_digit, generate_nip, Nip};
use pl_testdata::person::{generate_person, Person, PersonConstraints};
use pl_testdata::pesel::{Gender, Pesel};
use pl_testdata::phone::{generate_phone_number, PhoneNumber};
use pl_testdata::profile::{generate_test_profile, TestProfile};
use rand::rngs::StdRng;
use rand::SeedableRng;

const POLISH_CITIES: &[&str] = &[
    "Warszawa",
    "Kraków",
    "Łódź",
    "Wrocław",
    "Poznań",
    "Gdańsk",
    "Olsztyn",
    "Szczecin",
    "Bydgoszcz",
    "Lublin",
    "Białystok",
    "Katowice",
    "Gdynia",
    "Częstochowa",
    "Radom",
    "Sosnowiec",
    "Toruń",
    "Kielce",
    "Rzeszów",
    "Gliwice",
    "Zabrze",
];

const MALE_FIRST_NAMES: &[&str] = &[
    "Jan",
    "Piotr",
    "Krzysztof",
    "Andrzej",
    "Tomasz",
    "Paweł",
    "Michał",
    "Marcin",
    "Grzegorz",
    "Tadeusz",
    "Jerzy",
    "Dariusz",
    "Marek",
    "Łukasz",
    "Wojciech",
    "Adam",
    "Kamil",
    "Rafał",
    "Stanisław",
    "Zbigniew",
];

const FEMALE_FIRST_NAMES: &[&str] = &[
    "Anna",
    "Maria",
    "Katarzyna",
    "Małgorzata",
    "Agnieszka",
    "Barbara",
    "Ewa",
    "Elżbieta",
    "Krystyna",
    "Magdalena",
    "Joanna",
    "Danuta",
    "Teresa",
    "Zofia",
    "Beata",
    "Monika",
    "Alicja",
    "Halina",
    "Irena",
    "Justyna",
];

const INVARIANT_SURNAMES: &[&str] = &[
    "Nowak",
    "Kowalczyk",
    "Wójcik",
    "Zając",
    "Woźniak",
    "Kaczmarek",
];

const RESERVED_PREFIXES: &[&str] = &["70", "80", "81", "99", "11"];

fn date(y: i32, m: u32, d: u32) -> DateOfBirth {
    DateOfBirth::new(y, m, d).unwrap()
}

// ---- PESEL generation ----

fn narrow_pesel_constraints() -> PeselConstraints {
    PeselConstraints {
        gender: None,
        date_range: Some((date(1990, 1, 1), date(1999, 12, 31))),
    }
}

#[test]
fn generate_same_seed_produces_identical_sequences() {
    let constraints = narrow_pesel_constraints();

    let mut rng_a = StdRng::seed_from_u64(42);
    let mut rng_b = StdRng::seed_from_u64(42);

    let sequence_a: Vec<String> = (0..20)
        .map(|_| {
            generate_pesel(&mut rng_a, &constraints)
                .unwrap()
                .to_string()
        })
        .collect();
    let sequence_b: Vec<String> = (0..20)
        .map(|_| {
            generate_pesel(&mut rng_b, &constraints)
                .unwrap()
                .to_string()
        })
        .collect();

    assert_eq!(sequence_a, sequence_b);
}

#[test]
fn generate_different_seeds_produce_different_sequences() {
    let constraints = narrow_pesel_constraints();

    let mut rng_a = StdRng::seed_from_u64(1);
    let mut rng_b = StdRng::seed_from_u64(2);

    let sequence_a: Vec<String> = (0..20)
        .map(|_| {
            generate_pesel(&mut rng_a, &constraints)
                .unwrap()
                .to_string()
        })
        .collect();
    let sequence_b: Vec<String> = (0..20)
        .map(|_| {
            generate_pesel(&mut rng_b, &constraints)
                .unwrap()
                .to_string()
        })
        .collect();

    assert_ne!(sequence_a, sequence_b);
}

#[test]
fn generated_pesels_always_round_trip_through_parse() {
    let constraints = narrow_pesel_constraints();
    let mut rng = StdRng::seed_from_u64(7);

    for _ in 0..200 {
        let generated = generate_pesel(&mut rng, &constraints).unwrap();
        let reparsed = Pesel::parse(&generated.to_string())
            .expect("a generated Pesel must always be independently parseable");
        assert_eq!(reparsed, generated);
    }
}

#[test]
fn generate_respects_date_range_constraint() {
    let min = date(1990, 1, 1);
    let max = date(1990, 3, 31);
    let constraints = PeselConstraints {
        gender: None,
        date_range: Some((min, max)),
    };
    let mut rng = StdRng::seed_from_u64(3);

    for _ in 0..200 {
        let generated = generate_pesel(&mut rng, &constraints).unwrap();
        let dob = generated.date_of_birth();
        assert!(
            dob >= min && dob <= max,
            "{} outside [{}, {}]",
            dob.to_string(),
            min.to_string(),
            max.to_string()
        );
    }
}

#[test]
fn generate_respects_gender_constraint() {
    let constraints = PeselConstraints {
        gender: Some(Gender::Female),
        date_range: Some((date(1990, 1, 1), date(1990, 12, 31))),
    };
    let mut rng = StdRng::seed_from_u64(11);

    for _ in 0..50 {
        let generated = generate_pesel(&mut rng, &constraints).unwrap();
        assert_eq!(generated.gender(), Gender::Female);
    }
}

#[test]
fn rejects_inverted_date_range() {
    let min = date(2000, 1, 1);
    let max = date(1990, 1, 1);
    let constraints = PeselConstraints {
        gender: None,
        date_range: Some((min, max)),
    };
    let mut rng = StdRng::seed_from_u64(0);

    assert_eq!(
        generate_pesel(&mut rng, &constraints).unwrap_err(),
        GenerationError::InvalidDateRange { min, max }
    );
}

#[test]
fn rejects_date_range_outside_pesel_encodable_years() {
    let min = date(1700, 1, 1);
    let max = date(1990, 1, 1);
    let constraints = PeselConstraints {
        gender: None,
        date_range: Some((min, max)),
    };
    let mut rng = StdRng::seed_from_u64(0);

    assert_eq!(
        generate_pesel(&mut rng, &constraints).unwrap_err(),
        GenerationError::DateRangeOutsidePeselEncodableYears { min, max }
    );
}

#[test]
fn handles_century_boundary_range_without_encoding_errors() {
    let min = date(1999, 12, 1);
    let max = date(2000, 1, 31);
    let constraints = PeselConstraints {
        gender: None,
        date_range: Some((min, max)),
    };
    let mut rng = StdRng::seed_from_u64(99);

    for _ in 0..200 {
        let generated = generate_pesel(&mut rng, &constraints).unwrap();
        let dob = generated.date_of_birth();
        assert!(dob >= min && dob <= max);
        assert_eq!(
            Pesel::parse(&generated.to_string())
                .unwrap()
                .date_of_birth(),
            dob
        );
    }
}

#[test]
fn generated_pesels_always_satisfy_their_constraints() {
    for seed in 0u64..60 {
        let year_a = 1900 + (seed * 37 % 200) as i32;
        let year_b = 1900 + (seed * 91 % 200) as i32;
        let (min_year, max_year) = if year_a <= year_b {
            (year_a, year_b)
        } else {
            (year_b, year_a)
        };
        let min = date(min_year, 1, 1);
        let max = date(max_year, 12, 31);
        let gender = if seed % 2 == 0 {
            Gender::Male
        } else {
            Gender::Female
        };
        let constraints = PeselConstraints {
            gender: Some(gender),
            date_range: Some((min, max)),
        };
        let mut rng = StdRng::seed_from_u64(seed);
        let generated = generate_pesel(&mut rng, &constraints).unwrap();
        assert_eq!(generated.gender(), gender);
        let dob = generated.date_of_birth();
        assert!(dob >= min && dob <= max);
        assert_eq!(Pesel::parse(&generated.to_string()).unwrap(), generated);
    }
}

#[test]
fn a_single_day_range_always_gives_that_day() {
    let day = date(2024, 2, 29);
    let constraints = PeselConstraints {
        gender: None,
        date_range: Some((day, day)),
    };
    let mut rng = StdRng::seed_from_u64(5);
    for _ in 0..20 {
        assert_eq!(
            generate_pesel(&mut rng, &constraints)
                .unwrap()
                .date_of_birth(),
            day
        );
    }
}

#[test]
fn default_date_range_spans_ages_18_to_90() {
    let (min, max) = default_date_range_from(date(2025, 1, 1));
    assert_eq!(min.to_string(), "1935-01-24");
    assert_eq!(max.to_string(), "2007-01-06");
    let (min, max) = default_date_range();
    assert!(min <= max);
}

#[test]
fn default_date_range_stops_at_the_first_represented_day() {
    let (min, max) = default_date_range_from(date(-262143, 1, 2));
    assert_eq!(min, date(-262143, 1, 1));
    assert_eq!(max, date(-262143, 1, 1));
}

#[test]
fn unconstrained_generation_uses_the_default_range() {
    let (min, max) = default_date_range();
    let mut rng = StdRng::seed_from_u64(8);
    for _ in 0..20 {
        let generated = generate_pesel(&mut rng, &PeselConstraints::default()).unwrap();
        let dob = generated.date_of_birth();
        assert!(dob >= min && dob <= max);
    }
}

// ---- NIP generation ----

#[test]
fn nip_same_seed_produces_identical_sequences() {
    let mut rng_a = StdRng::seed_from_u64(42);
    let mut rng_b = StdRng::seed_from_u64(42);

    let seq_a: Vec<String> = (0..50)
        .map(|_| generate_nip(&mut rng_a).to_string())
        .collect();
    let seq_b: Vec<String> = (0..50)
        .map(|_| generate_nip(&mut rng_b).to_string())
        .collect();

    assert_eq!(seq_a, seq_b);
}

#[test]
fn nip_different_seeds_produce_different_sequences() {
    let mut rng_a = StdRng::seed_from_u64(1);
    let mut rng_b = StdRng::seed_from_u64(2);

    let seq_a: Vec<String> = (0..50)
        .map(|_| generate_nip(&mut rng_a).to_string())
        .collect();
    let seq_b: Vec<String> = (0..50)
        .map(|_| generate_nip(&mut rng_b).to_string())
        .collect();

    assert_ne!(seq_a, seq_b);
}

#[test]
fn generated_nips_always_round_trip_through_parse() {
    let mut rng = StdRng::seed_from_u64(7);

    for _ in 0..500 {
        let generated = generate_nip(&mut rng);
        let reparsed = Nip::parse(&generated.to_string())
            .expect("a generated Nip must always be independently parseable");
        assert_eq!(reparsed, generated);
    }
}

#[test]
fn generated_nips_always_have_a_valid_checksum() {
    for seed in 0u64..100 {
        let mut rng = StdRng::seed_from_u64(seed);
        let nip = generate_nip(&mut rng);
        let s = nip.to_string();
        let digits: [u8; 10] = std::array::from_fn(|i| s.as_bytes()[i] - b'0');
        let first_nine: [u8; 9] = digits[0..9].try_into().unwrap();
        assert_eq!(Some(digits[9]), nip_checksum_digit(&first_nine));
    }
}

// ---- Address generation ----

#[test]
fn address_same_seed_produces_identical_sequences() {
    let mut rng_a = StdRng::seed_from_u64(42);
    let mut rng_b = StdRng::seed_from_u64(42);

    let seq_a: Vec<String> = (0..50)
        .map(|_| generate_address(&mut rng_a).postal_code.to_string())
        .collect();
    let seq_b: Vec<String> = (0..50)
        .map(|_| generate_address(&mut rng_b).postal_code.to_string())
        .collect();

    assert_eq!(seq_a, seq_b);
}

#[test]
fn address_different_seeds_produce_different_sequences() {
    let mut rng_a = StdRng::seed_from_u64(1);
    let mut rng_b = StdRng::seed_from_u64(2);

    let seq_a: Vec<String> = (0..50)
        .map(|_| generate_address(&mut rng_a).postal_code.to_string())
        .collect();
    let seq_b: Vec<String> = (0..50)
        .map(|_| generate_address(&mut rng_b).postal_code.to_string())
        .collect();

    assert_ne!(seq_a, seq_b);
}

#[test]
fn city_is_always_from_the_known_list() {
    let mut rng = StdRng::seed_from_u64(9);

    for _ in 0..500 {
        let address = generate_address(&mut rng);
        assert!(
            POLISH_CITIES.contains(&address.city.as_str()),
            "{} not in the known city list",
            address.city
        );
    }
}

#[test]
fn generated_postal_codes_always_round_trip_through_parse() {
    for seed in 0u64..100 {
        let mut rng = StdRng::seed_from_u64(seed);
        let address = generate_address(&mut rng);
        let s = address.postal_code.to_string();
        assert_eq!(PostalCode::parse(&s).unwrap(), address.postal_code);
    }
}

// ---- Identity document generation ----

#[test]
fn document_same_seed_produces_identical_sequences() {
    let mut rng_a = StdRng::seed_from_u64(42);
    let mut rng_b = StdRng::seed_from_u64(42);

    let seq_a: Vec<String> = (0..50)
        .map(|_| generate_id_document_number(&mut rng_a).to_string())
        .collect();
    let seq_b: Vec<String> = (0..50)
        .map(|_| generate_id_document_number(&mut rng_b).to_string())
        .collect();

    assert_eq!(seq_a, seq_b);
}

#[test]
fn document_different_seeds_produce_different_sequences() {
    let mut rng_a = StdRng::seed_from_u64(1);
    let mut rng_b = StdRng::seed_from_u64(2);

    let seq_a: Vec<String> = (0..50)
        .map(|_| generate_id_document_number(&mut rng_a).to_string())
        .collect();
    let seq_b: Vec<String> = (0..50)
        .map(|_| generate_id_document_number(&mut rng_b).to_string())
        .collect();

    assert_ne!(seq_a, seq_b);
}

#[test]
fn document_generated_numbers_always_round_trip_through_parse() {
    let mut rng = StdRng::seed_from_u64(7);

    for _ in 0..500 {
        let generated = generate_id_document_number(&mut rng);
        let reparsed = IdDocumentNumber::parse(&generated.to_string())
            .expect("a generated IdDocumentNumber must always be independently parseable");
        assert_eq!(reparsed, generated);
    }
}

// ---- IBAN generation ----

#[test]
fn iban_same_seed_produces_identical_sequences() {
    let mut rng_a = StdRng::seed_from_u64(42);
    let mut rng_b = StdRng::seed_from_u64(42);

    let seq_a: Vec<String> = (0..50)
        .map(|_| generate_iban(&mut rng_a).to_string())
        .collect();
    let seq_b: Vec<String> = (0..50)
        .map(|_| generate_iban(&mut rng_b).to_string())
        .collect();

    assert_eq!(seq_a, seq_b);
}

#[test]
fn generated_ibans_always_round_trip_through_parse() {
    let mut rng = StdRng::seed_from_u64(7);

    for _ in 0..500 {
        let generated = generate_iban(&mut rng);
        let reparsed = Iban::parse(&generated.to_string())
            .expect("a generated Iban must always be independently parseable");
        assert_eq!(reparsed, generated);
    }
}

// ---- Phone generation ----

#[test]
fn phone_same_seed_produces_identical_sequences() {
    let mut rng_a = StdRng::seed_from_u64(42);
    let mut rng_b = StdRng::seed_from_u64(42);

    let seq_a: Vec<String> = (0..50)
        .map(|_| generate_phone_number(&mut rng_a).to_string())
        .collect();
    let seq_b: Vec<String> = (0..50)
        .map(|_| generate_phone_number(&mut rng_b).to_string())
        .collect();

    assert_eq!(seq_a, seq_b);
}

#[test]
fn generated_numbers_never_use_a_reserved_prefix() {
    let mut rng = StdRng::seed_from_u64(3);

    for _ in 0..1000 {
        let number = generate_phone_number(&mut rng).to_string();
        let digits: String = number.chars().filter(|c| c.is_ascii_digit()).collect();
        let prefix = &digits[2..4];
        assert!(
            !RESERVED_PREFIXES.contains(&prefix),
            "{number} uses reserved prefix {prefix}"
        );
    }
}

#[test]
fn phone_generated_numbers_always_round_trip_through_parse() {
    let mut rng = StdRng::seed_from_u64(8);

    for _ in 0..500 {
        let generated = generate_phone_number(&mut rng);
        let digits: String = generated
            .to_string()
            .chars()
            .filter(|c| c.is_ascii_digit())
            .collect();
        let reparsed = PhoneNumber::parse(&digits[2..]).unwrap();
        assert_eq!(reparsed, generated);
    }
}

// ---- Email generation ----

#[test]
fn generated_addresses_always_use_a_reserved_domain() {
    let mut rng = StdRng::seed_from_u64(4);
    let reserved: Vec<&str> = ReservedDomain::ALL.iter().map(|d| d.as_str()).collect();

    for _ in 0..500 {
        let email = generate_email(&mut rng, "Jan", "Kowalski").to_string();
        let domain = email.split('@').nth(1).expect("address has a domain part");
        assert!(
            reserved.contains(&domain),
            "{email} uses a non-reserved domain '{domain}'"
        );
    }
}

#[test]
fn generated_addresses_are_syntactically_well_formed() {
    let mut rng = StdRng::seed_from_u64(4);

    for _ in 0..200 {
        let email = generate_email(&mut rng, "Ewa", "Wiśniewska").to_string();
        let parts: Vec<&str> = email.split('@').collect();
        assert_eq!(parts.len(), 2, "{email} should have exactly one '@'");
        assert!(!parts[0].is_empty());
    }
}

#[test]
fn generated_local_part_is_derived_from_the_given_name() {
    let mut rng = StdRng::seed_from_u64(4);
    let email = generate_email(&mut rng, "Jan", "Kowalski").to_string();
    assert!(email.starts_with("jan.kowalski"));
}

#[test]
fn email_same_seed_produces_identical_sequences() {
    let mut rng_a = StdRng::seed_from_u64(42);
    let mut rng_b = StdRng::seed_from_u64(42);

    let seq_a: Vec<String> = (0..30)
        .map(|_| generate_email(&mut rng_a, "Jan", "Kowalski").to_string())
        .collect();
    let seq_b: Vec<String> = (0..30)
        .map(|_| generate_email(&mut rng_b, "Jan", "Kowalski").to_string())
        .collect();

    assert_eq!(seq_a, seq_b);
}

#[test]
fn generated_local_part_ends_with_a_number_from_10_to_999() {
    let mut rng = StdRng::seed_from_u64(12);
    for _ in 0..200 {
        let email = generate_email(&mut rng, "Ewa", "Wiśniewska").to_string();
        let local = email.split('@').next().unwrap();
        let number: u32 = local["ewa.wisniewska".len()..].parse().unwrap();
        assert!((10..=999).contains(&number), "{email}");
    }
}

// ---- Person generation ----

fn narrow_person_constraints() -> PersonConstraints {
    PersonConstraints {
        gender: None,
        date_range: Some((date(1970, 1, 1), date(2005, 12, 31))),
    }
}

#[test]
fn person_gender_always_matches_its_pesel() {
    let constraints = narrow_person_constraints();
    let mut rng = StdRng::seed_from_u64(5);

    for _ in 0..200 {
        let person = generate_person(&mut rng, &constraints).unwrap();
        assert_eq!(person.gender, person.pesel.gender());
    }
}

#[test]
fn person_date_of_birth_always_matches_its_pesel() {
    let constraints = narrow_person_constraints();
    let mut rng = StdRng::seed_from_u64(6);

    for _ in 0..200 {
        let person = generate_person(&mut rng, &constraints).unwrap();
        assert_eq!(person.date_of_birth, person.pesel.date_of_birth());
    }
}

#[test]
fn first_name_is_drawn_from_the_matching_gender_list() {
    let constraints = narrow_person_constraints();
    let mut rng = StdRng::seed_from_u64(9);

    for _ in 0..200 {
        let person = generate_person(&mut rng, &constraints).unwrap();
        let expected_list = match person.gender {
            Gender::Male => MALE_FIRST_NAMES,
            Gender::Female => FEMALE_FIRST_NAMES,
        };
        assert!(
            expected_list.contains(&person.first_name.as_str()),
            "{} not in the {:?} name list",
            person.first_name,
            person.gender
        );
    }
}

#[test]
fn inflected_surnames_use_the_correct_gender_suffix() {
    let constraints = narrow_person_constraints();
    let mut rng = StdRng::seed_from_u64(13);

    for _ in 0..200 {
        let person = generate_person(&mut rng, &constraints).unwrap();
        if INVARIANT_SURNAMES.contains(&person.last_name.as_str()) {
            continue;
        }
        match person.gender {
            Gender::Male => assert!(
                person.last_name.ends_with("ski"),
                "{} should end in 'ski'",
                person.last_name
            ),
            Gender::Female => assert!(
                person.last_name.ends_with("ska"),
                "{} should end in 'ska'",
                person.last_name
            ),
        }
    }
}

#[test]
fn same_seed_produces_identical_people() {
    let constraints = narrow_person_constraints();

    let mut rng_a = StdRng::seed_from_u64(21);
    let mut rng_b = StdRng::seed_from_u64(21);

    let people_a: Vec<Person> = (0..20)
        .map(|_| generate_person(&mut rng_a, &constraints).unwrap())
        .collect();
    let people_b: Vec<Person> = (0..20)
        .map(|_| generate_person(&mut rng_b, &constraints).unwrap())
        .collect();

    assert_eq!(people_a, people_b);
}

#[test]
fn person_respects_gender_constraint() {
    let constraints = PersonConstraints {
        gender: Some(Gender::Female),
        date_range: Some((date(1990, 1, 1), date(1990, 12, 31))),
    };
    let mut rng = StdRng::seed_from_u64(17);

    for _ in 0..50 {
        let person = generate_person(&mut rng, &constraints).unwrap();
        assert_eq!(person.gender, Gender::Female);
        assert!(FEMALE_FIRST_NAMES.contains(&person.first_name.as_str()));
    }
}

#[test]
fn person_respects_date_range_constraint() {
    let min = date(1985, 6, 1);
    let max = date(1985, 6, 30);
    let constraints = PersonConstraints {
        gender: None,
        date_range: Some((min, max)),
    };
    let mut rng = StdRng::seed_from_u64(23);

    for _ in 0..50 {
        let person = generate_person(&mut rng, &constraints).unwrap();
        assert!(person.date_of_birth >= min && person.date_of_birth <= max);
    }
}

#[test]
fn propagates_generation_errors_from_invalid_constraints() {
    let min = date(2000, 1, 1);
    let max = date(1990, 1, 1);
    let constraints = PersonConstraints {
        gender: None,
        date_range: Some((min, max)),
    };
    let mut rng = StdRng::seed_from_u64(0);

    assert_eq!(
        generate_person(&mut rng, &constraints).unwrap_err(),
        GenerationError::InvalidDateRange { min, max }
    );
}

#[test]
fn ski_surnames_are_never_assigned_unchanged_to_a_female_person() {
    let constraints = PersonConstraints {
        gender: Some(Gender::Female),
        date_range: None,
    };
    let mut rng = StdRng::seed_from_u64(31);

    for _ in 0..500 {
        let person = generate_person(&mut rng, &constraints).unwrap();
        assert!(
            !person.last_name.ends_with("ski"),
            "female person got a masculine -ski surname: {}",
            person.last_name
        );
    }
}

// ---- Profile generation ----

#[test]
fn same_seed_produces_identical_profiles() {
    let constraints = PersonConstraints::default();

    let mut rng_a = StdRng::seed_from_u64(42);
    let mut rng_b = StdRng::seed_from_u64(42);

    let profiles_a: Vec<TestProfile> = (0..20)
        .map(|_| generate_test_profile(&mut rng_a, &constraints).unwrap())
        .collect();
    let profiles_b: Vec<TestProfile> = (0..20)
        .map(|_| generate_test_profile(&mut rng_b, &constraints).unwrap())
        .collect();

    assert_eq!(profiles_a, profiles_b);
}

#[test]
fn propagates_generation_errors_from_the_underlying_person_constraints() {
    let min = date(2000, 1, 1);
    let max = date(1990, 1, 1);
    let constraints = PersonConstraints {
        gender: None,
        date_range: Some((min, max)),
    };
    let mut rng = StdRng::seed_from_u64(0);

    assert_eq!(
        generate_test_profile(&mut rng, &constraints).unwrap_err(),
        GenerationError::InvalidDateRange { min, max }
    );
}

#[test]
fn bundled_profile_still_satisfies_person_constraints() {
    for seed in 0u64..40 {
        let min = date(1950 + (seed % 30) as i32, 1, 1);
        let max = date(1990 + (seed % 50) as i32, 12, 31);
        let gender = if seed % 3 == 0 {
            Gender::Male
        } else {
            Gender::Female
        };
        let constraints = PersonConstraints {
            gender: Some(gender),
            date_range: Some((min, max)),
        };
        let mut rng = StdRng::seed_from_u64(seed);
        let profile = generate_test_profile(&mut rng, &constraints).unwrap();
        assert_eq!(profile.person.gender, gender);
        assert!(profile.person.date_of_birth >= min && profile.person.date_of_birth <= max);
        assert_eq!(profile.person.gender, profile.person.pesel.gender());
        let email = profile.email.to_string();
        assert!(email.contains('@'));
        assert!(Nip::parse(&profile.nip.to_string()).is_ok());
        assert!(Iban::parse(&profile.iban.to_string()).is_ok());
    }
}
