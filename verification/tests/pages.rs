use pl_testdata::dto::{GenderDto, GenerateForm, GenerateRequest};
use pl_testdata::error::ApiError;
use pl_testdata::generate::GenerationError;
use pl_testdata::lang::Lang;
use pl_testdata::service::generate_people;
use pl_testdata::templates::{page, PageContext};

fn request(
    gender: Option<GenderDto>,
    min_date: Option<&str>,
    max_date: Option<&str>,
    seed: Option<u64>,
    count: Option<u8>,
) -> GenerateRequest {
    GenerateRequest {
        gender,
        min_date: min_date.map(|s| s.to_string()),
        max_date: max_date.map(|s| s.to_string()),
        seed,
        count,
    }
}

fn form(gender: &str, min_date: &str, max_date: &str, seed: &str, count: &str) -> GenerateForm {
    GenerateForm {
        gender: gender.to_string(),
        min_date: min_date.to_string(),
        max_date: max_date.to_string(),
        seed: seed.to_string(),
        count: count.to_string(),
    }
}

/// What a submitted form is answered with, as the server answers it: whether it is
/// accepted, and the page.
fn submit(form: GenerateForm) -> (bool, String) {
    let request = match form.clone().into_request() {
        Ok(request) => request,
        Err(form_err) => {
            let err: ApiError = form_err.into();
            let html = page(PageContext {
                lang: Lang::En,
                person_results: None,
                submitted_form: Some(&form),
                error: Some(err.message()),
            });
            return (false, html);
        }
    };
    match generate_people(&request) {
        Ok((people, seed)) => {
            let html = page(PageContext {
                lang: Lang::En,
                person_results: Some((people.as_slice(), seed, "[]")),
                submitted_form: Some(&form),
                error: None,
            });
            (true, html)
        }
        Err(err) => {
            let html = page(PageContext {
                lang: Lang::En,
                person_results: None,
                submitted_form: Some(&form),
                error: Some(err.message()),
            });
            (false, html)
        }
    }
}

fn index() -> String {
    page(PageContext {
        lang: Lang::En,
        person_results: None,
        submitted_form: None,
        error: None,
    })
}

#[test]
fn index_page_carries_the_synthetic_data_footer_notice() {
    let html = index();
    assert!(html.contains("fictitious and not linked to real people"));
    assert!(html.contains(r#"<html lang="en">"#));
    assert!(html.contains(r#"action="/en/generate""#));
    assert!(html.contains(r#"href="/pl/""#));
    assert!(html.contains(r#"value="1""#));
    assert!(!html.contains("{{"));
}

#[test]
fn index_page_links_the_external_stylesheet() {
    assert!(index().contains(r#"href="/styles.css""#));
}

#[test]
fn same_seed_produces_byte_identical_people_across_two_requests() {
    let (people_a, seed_a) = generate_people(&request(None, None, None, Some(42), Some(5))).unwrap();
    let (people_b, seed_b) = generate_people(&request(None, None, None, Some(42), Some(5))).unwrap();
    assert_eq!(seed_a, 42);
    assert_eq!(seed_b, 42);
    assert_eq!(people_a, people_b);
}

#[test]
fn omitted_seed_is_still_reported_back_for_reproducibility() {
    let (people, seed) = generate_people(&request(None, None, None, None, None)).unwrap();
    assert_eq!(people.len(), 1);
    let (again, same_seed) = generate_people(&request(None, None, None, Some(seed), None)).unwrap();
    assert_eq!(same_seed, seed);
    assert_eq!(again, people);
}

#[test]
fn invalid_date_range_returns_400_with_the_domain_error_reason() {
    let err = generate_people(&request(
        None,
        Some("2000-01-01"),
        Some("1990-01-01"),
        None,
        None,
    ))
    .unwrap_err();
    assert!(matches!(err, ApiError::Generation(GenerationError::InvalidDateRange { .. })));
    assert!(err.message().contains("invalid date range"));
}

#[test]
fn malformed_date_returns_400_naming_the_offending_field() {
    let err = generate_people(&request(
        None,
        Some("not-a-date"),
        Some("2000-01-01"),
        None,
        None,
    ))
    .unwrap_err();
    assert!(matches!(err, ApiError::InvalidField { field: "min_date", .. }));
    assert!(err.message().contains("min_date"));
}

#[test]
fn gender_constraint_is_respected_for_every_generated_person() {
    let (people, _) =
        generate_people(&request(Some(GenderDto::Female), None, None, Some(7), Some(20))).unwrap();
    assert_eq!(people.len(), 20);
    for person in &people {
        assert_eq!(person.gender, "Female");
    }
}

#[test]
fn count_above_the_cap_is_rejected() {
    let err = generate_people(&request(None, None, None, None, Some(255))).unwrap_err();
    assert!(matches!(err, ApiError::InvalidCount { count: 255, max: 50 }));
}

#[test]
fn count_of_zero_is_rejected() {
    let err = generate_people(&request(None, None, None, None, Some(0))).unwrap_err();
    assert!(matches!(err, ApiError::InvalidCount { count: 0, max: 50 }));
}

#[test]
fn html_form_submission_renders_a_results_table() {
    let (ok, html) = submit(form("", "", "", "99", "3"));
    assert!(ok);
    assert!(html.contains("<table>"));
    assert!(html.contains("Seed used: <code>99</code>"));
    assert!(html.contains("<th>NIP</th>"));
    assert!(!html.contains("{{"));
}

#[test]
fn every_generated_person_carries_a_valid_nip() {
    let (people, _) = generate_people(&request(None, None, None, Some(5), Some(10))).unwrap();
    for person in &people {
        assert_eq!(person.nip.len(), 10);
        assert!(person.nip.chars().all(|c| c.is_ascii_digit()));
    }
}

#[test]
fn only_min_date_no_longer_errors_and_uses_a_default_upper_bound() {
    let (ok, html) = submit(form("", "2000-01-01", "", "1", "5"));
    assert!(ok);
    assert!(html.contains("<table>"));
    let (people, _) =
        generate_people(&request(None, Some("2000-01-01"), None, Some(1), Some(5))).unwrap();
    for person in &people {
        assert!(person.date_of_birth.as_str() >= "2000-01-01");
    }
}

#[test]
fn only_max_date_no_longer_errors_and_uses_a_default_lower_bound() {
    let (ok, _) = submit(form("", "", "2005-12-31", "1", "5"));
    assert!(ok);
    let (people, _) =
        generate_people(&request(None, None, Some("2005-12-31"), Some(1), Some(5))).unwrap();
    for person in &people {
        assert!(person.date_of_birth.as_str() <= "2005-12-31");
    }
}

#[test]
fn invalid_date_range_from_the_html_form_renders_an_html_error_not_json() {
    let (ok, html) = submit(form("", "2020-01-01", "1990-01-01", "1", "1"));
    assert!(!ok);
    assert!(html.contains("invalid date range"));
    assert!(html.contains(r#"class="error""#));
    assert!(!html.contains("<table>"));
}

#[test]
fn submitted_form_values_are_redisplayed_after_generating() {
    let (ok, html) = submit(form("female", "1990-06-01", "1999-12-31", "42", "3"));
    assert!(ok);
    assert!(html.contains(r#"value="1990-06-01""#));
    assert!(html.contains(r#"value="1999-12-31""#));
    assert!(html.contains(r#"value="42""#));
    assert!(html.contains(r#"value="3""#));
    assert!(html.contains(r#"value="female" selected"#));
}

#[test]
fn blank_seed_field_stays_blank_after_generating() {
    let (ok, html) = submit(form("", "", "", "", "3"));
    assert!(ok);
    assert!(html.contains(r#"id="seed" name="seed" min="0" value="""#));
}

#[test]
fn malformed_iso_date_from_the_html_form_returns_400_naming_the_field() {
    let (ok, html) = submit(form("", "1990-13-40", "", "1", "1"));
    assert!(!ok);
    assert!(html.contains("min_date"));
    assert!(html.contains(r#"class="error""#));
}

#[test]
fn results_embed_the_people_json_with_markup_escaped() {
    let (people, seed) = generate_people(&request(None, None, None, Some(3), Some(2))).unwrap();
    let html = page(PageContext {
        lang: Lang::Pl,
        person_results: Some((people.as_slice(), seed, "[{\"a\":\"<b>&\"}]")),
        submitted_form: None,
        error: None,
    });
    assert!(html.contains("[{\"a\":\"&lt;b&gt;&amp;\"}]"));
    assert!(html.contains("Użyty seed: <code>3</code>"));
    for person in &people {
        assert!(html.contains(&person.pesel));
        assert!(html.contains(&person.iban));
    }
}
