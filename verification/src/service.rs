//! Answering a request for generated people: the count, the range of birth dates,
//! the seed, and the people themselves.
use vstd::prelude::*;
use vstd::string::*;

use crate::calendar::{date_le, day_number, is_calendar_date, is_date, lemma_day_number_order, DateOfBirth};
use crate::dto::{describes, gender_of, is_iso_date_text, GenderDto, GenerateRequest, PersonDto};
use crate::error::ApiError;
use crate::generate::{
    after_some_default_min, before_some_default_max, default_date_range, default_range_of,
    is_default_max, is_default_min, is_default_range, range_error, within_default_range,
    GenerationError, PESEL_MAX_YEAR, PESEL_MIN_YEAR,
};
use crate::person::PersonConstraints;
use crate::pesel::{pesel_date, Gender};
use crate::profile::{generate_test_profile, is_consistent_profile, TestProfile};
use crate::random::{fresh_seed, seeded_rng};
use crate::text::{all_digit_chars, chars_of, is_digit_char, decimal_value, parse_unsigned, parse_unsigned_text};

verus! {

/// The most people that one request may ask for.
pub const MAX_COUNT: u8 = 50;

/// The parts of a text between the occurrences of `sep`, as `str::split` gives them.
pub open spec fn split_on(s: Seq<char>, sep: char) -> Seq<Seq<char>>
    decreases s.len(),
{
    if s.len() == 0 {
        seq![Seq::empty()]
    } else {
        let r = split_on(s.drop_last(), sep);
        if s.last() == sep {
            r.push(Seq::empty())
        } else {
            r.update(r.len() - 1, r.last().push(s.last()))
        }
    }
}

proof fn lemma_split_on_nonempty(s: Seq<char>, sep: char)
    ensures
        split_on(s, sep).len() >= 1,
    decreases s.len(),
{
    if s.len() > 0 {
        lemma_split_on_nonempty(s.drop_last(), sep);
    }
}

/// Parts written one after another with `sep` between them.
pub open spec fn joined(parts: Seq<Seq<char>>, sep: char) -> Seq<char>
    decreases parts.len(),
{
    if parts.len() == 0 {
        Seq::empty()
    } else if parts.len() == 1 {
        parts[0]
    } else {
        joined(parts.drop_last(), sep) + seq![sep] + parts.last()
    }
}

proof fn lemma_split_joined(s: Seq<char>, sep: char)
    ensures
        joined(split_on(s, sep), sep) == s,
    decreases s.len(),
{
    if s.len() == 0 {
        assert(joined(split_on(s, sep), sep) =~= s);
    } else {
        let t = s.drop_last();
        let c = s.last();
        lemma_split_joined(t, sep);
        lemma_split_on_nonempty(t, sep);
        let r = split_on(t, sep);
        if c == sep {
            assert(r.push(Seq::empty()).drop_last() =~= r);
            assert(joined(r.push(Seq::<char>::empty()), sep) =~= t + seq![sep] + Seq::<char>::empty());
            assert(t + seq![sep] + Seq::<char>::empty() =~= s);
        } else {
            let r2 = r.update(r.len() - 1, r.last().push(c));
            if r.len() == 1 {
                assert(joined(r2, sep) =~= r[0].push(c));
                assert(t.push(c) =~= s);
            } else {
                assert(r2.drop_last() =~= r.drop_last());
                assert(joined(r2, sep) =~= joined(r, sep).push(c));
                assert(t.push(c) =~= s);
            }
        }
    }
}

proof fn lemma_split_without_sep(b: Seq<char>, sep: char)
    requires
        forall|i: int| 0 <= i < b.len() ==> #[trigger] b[i] != sep,
    ensures
        split_on(b, sep) == seq![b],
    decreases b.len(),
{
    if b.len() == 0 {
        assert(b =~= Seq::<char>::empty());
        assert(split_on(b, sep) =~= seq![b]);
    } else {
        let t = b.drop_last();
        assert forall|i: int| 0 <= i < t.len() implies #[trigger] t[i] != sep by {
            assert(t[i] == b[i]);
        }
        lemma_split_without_sep(t, sep);
        assert(b[b.len() - 1] != sep);
        assert(t.push(b.last()) =~= b);
        let r = split_on(t, sep);
        assert(r.len() == 1 && r.last() == t);
        assert(r.update(0, t.push(b.last())) =~= seq![b]);
        assert(split_on(b, sep) =~= seq![b]);
    }
}

proof fn lemma_split_concat(a: Seq<char>, b: Seq<char>, sep: char)
    ensures
        split_on(a + seq![sep] + b, sep) == split_on(a, sep) + split_on(b, sep),
    decreases b.len(),
{
    let s = a + seq![sep] + b;
    if b.len() == 0 {
        assert(s.drop_last() =~= a);
        assert(split_on(s, sep) =~= split_on(a, sep) + seq![Seq::<char>::empty()]);
    } else {
        let t = b.drop_last();
        let c = b.last();
        lemma_split_concat(a, t, sep);
        lemma_split_on_nonempty(t, sep);
        assert(s.drop_last() =~= a + seq![sep] + t);
        assert(s.last() == c);
        let ra = split_on(a, sep);
        let rt = split_on(t, sep);
        if c == sep {
            assert(split_on(s, sep) =~= (ra + rt).push(Seq::empty()));
            assert((ra + rt).push(Seq::empty()) =~= ra + rt.push(Seq::empty()));
        } else {
            let r = ra + rt;
            assert(r.last() == rt.last());
            assert(r.update(r.len() - 1, r.last().push(c)) =~= ra + rt.update(
                rt.len() - 1,
                rt.last().push(c),
            ));
        }
    }
}

/// A `YYYY-MM-DD` text is exactly one that `str::split('-')` cuts into three parts of
/// four, two and two decimal digits.
pub proof fn lemma_iso_date_text_is_three_parts(s: Seq<char>)
    ensures
        is_iso_date_text(s) <==> {
            let p = split_on(s, '-');
            &&& p.len() == 3
            &&& p[0].len() == 4 && p[1].len() == 2 && p[2].len() == 2
            &&& all_digit_chars(p[0]) && all_digit_chars(p[1]) && all_digit_chars(p[2])
        },
{
    let p = split_on(s, '-');
    if is_iso_date_text(s) {
        let a = s.subrange(0, 4);
        let b = s.subrange(5, 7);
        let c = s.subrange(8, 10);
        assert(s =~= a + seq!['-'] + b + seq!['-'] + c);
        assert forall|i: int| 0 <= i < a.len() implies #[trigger] a[i] != '-' by {
            assert(is_digit_char(a[i]));
        }
        assert forall|i: int| 0 <= i < b.len() implies #[trigger] b[i] != '-' by {
            assert(is_digit_char(b[i]));
        }
        assert forall|i: int| 0 <= i < c.len() implies #[trigger] c[i] != '-' by {
            assert(is_digit_char(c[i]));
        }
        lemma_split_without_sep(a, '-');
        lemma_split_without_sep(b, '-');
        lemma_split_without_sep(c, '-');
        lemma_split_concat(a, b, '-');
        lemma_split_concat(a + seq!['-'] + b, c, '-');
        assert(p =~= seq![a, b, c]);
    } else {
        if p.len() == 3 && p[0].len() == 4 && p[1].len() == 2 && p[2].len() == 2 && all_digit_chars(
            p[0],
        ) && all_digit_chars(p[1]) && all_digit_chars(p[2]) {
            lemma_split_joined(s, '-');
            let q = p.drop_last();
            assert(q.drop_last() =~= seq![p[0]]);
            assert(joined(q.drop_last(), '-') == p[0]);
            assert(q.last() == p[1]);
            assert(joined(q, '-') == p[0] + seq!['-'] + p[1]);
            assert(s =~= p[0] + seq!['-'] + p[1] + seq!['-'] + p[2]);
            assert(s.subrange(0, 4) =~= p[0]);
            assert(s.subrange(5, 7) =~= p[1]);
            assert(s.subrange(8, 10) =~= p[2]);
        }
    }
}

/// What `str::parse::<i32>` gives: an optional sign, then decimal digits, of a value
/// within the range of `i32`.
pub open spec fn parse_i32(s: Seq<char>) -> Option<int> {
    if s.len() > 0 && s[0] == '-' {
        let body = s.drop_first();
        if body.len() == 0 || !all_digit_chars(body) || decimal_value(body) > 2147483648 {
            None
        } else {
            Some(-decimal_value(body))
        }
    } else {
        match parse_unsigned(s, 2147483647) {
            Some(v) => Some(v as int),
            None => None,
        }
    }
}

/// The year, month and day that a text `Y-M-D` names: three dash-separated parts that
/// parse as an `i32` and two `u32`s.
pub open spec fn date_parts(s: Seq<char>) -> Option<(int, int, int)> {
    let p = split_on(s, '-');
    if p.len() == 3 && parse_i32(p[0]) is Some && parse_unsigned(p[1], u32::MAX as nat) is Some
        && parse_unsigned(p[2], u32::MAX as nat) is Some {
        Some((parse_i32(p[0])->0, parse_unsigned(p[1], u32::MAX as nat)->0 as int, parse_unsigned(p[2], u32::MAX as nat)->0 as int))
    } else {
        None
    }
}

/// The date that a text names, if it names an existing one.
pub open spec fn named_date(s: Seq<char>) -> Option<(int, int, int)> {
    match date_parts(s) {
        Some(t) => if is_calendar_date(t.0, t.1, t.2) {
            Some(t)
        } else {
            None
        },
        None => None,
    }
}

/// How many people a request asks for: one by default.
pub open spec fn requested_count(req: GenerateRequest) -> u8 {
    match req.count {
        Some(c) => c,
        None => 1,
    }
}

/// The first date field of a request that names no existing date, with its text.
pub open spec fn first_invalid_date(req: GenerateRequest) -> Option<(Seq<char>, Seq<char>)> {
    if req.min_date is Some && named_date(req.min_date->0@) is None {
        Some(("min_date"@, req.min_date->0@))
    } else if req.max_date is Some && named_date(req.max_date->0@) is None {
        Some(("max_date"@, req.max_date->0@))
    } else {
        None
    }
}

/// A generated person meets a request: gender as requested, and date of birth within
/// the requested dates, a missing bound being a default one.
pub open spec fn meets_request(p: TestProfile, req: GenerateRequest) -> bool {
    &&& (req.gender matches Some(g) ==> p.person.gender == gender_of(g))
    &&& (req.min_date matches Some(t) ==> date_le(named_date(t@)->0, pesel_date(p.person.pesel@)))
    &&& (req.max_date matches Some(t) ==> date_le(pesel_date(p.person.pesel@), named_date(t@)->0))
    &&& (req.min_date is None && req.max_date is None ==> within_default_range(
        pesel_date(p.person.pesel@),
    ))
    &&& (req.min_date is None && req.max_date is Some ==> after_some_default_min(
        pesel_date(p.person.pesel@),
    ))
    &&& (req.min_date is Some && req.max_date is None ==> before_some_default_max(
        pesel_date(p.person.pesel@),
    ))
}

/// A person's text form describes a consistent profile that meets the request.
pub open spec fn answers_request(dto: PersonDto, req: GenerateRequest) -> bool {
    exists|p: TestProfile|
        #[trigger] describes(dto, p) && is_consistent_profile(p) && meets_request(p, req)
}

/// The error for the requested dates, where both are given and name existing dates.
pub open spec fn requested_range_error(g: GenerationError, req: GenerateRequest) -> bool {
    let lo = named_date(req.min_date->0@)->0;
    let hi = named_date(req.max_date->0@)->0;
    match g {
        GenerationError::InvalidDateRange { min, max } => min@ == lo && max@ == hi && !date_le(
            lo,
            hi,
        ),
        GenerationError::DateRangeOutsidePeselEncodableYears { min, max } => min@ == lo && max@
            == hi && date_le(lo, hi) && (lo.0 < PESEL_MIN_YEAR || hi.0 > PESEL_MAX_YEAR),
    }
}

/// A generation error is the range check's own error on the range of birth dates
/// that generation was given: the requested dates where given, a default bound (for
/// the day of the call) for each one missing.
pub open spec fn reports_requested_range(g: GenerationError, req: GenerateRequest) -> bool {
    let (min, max) = match g {
        GenerationError::InvalidDateRange { min, max } => (min, max),
        GenerationError::DateRangeOutsidePeselEncodableYears { min, max } => (min, max),
    };
    if req.min_date is Some || req.max_date is Some {
        &&& range_error(min, max) == Some(g)
        &&& (req.min_date matches Some(t) ==> min@ == named_date(t@)->0)
        &&& (req.max_date matches Some(t) ==> max@ == named_date(t@)->0)
        &&& (req.min_date is None ==> is_default_min(min@))
        &&& (req.max_date is None ==> is_default_max(max@))
    } else {
        &&& g is DateRangeOutsidePeselEncodableYears
        &&& range_error(min, max) == Some(g)
        &&& is_default_range(min@, max@)
    }
}

fn split_dashes(s: &str) -> (r: Vec<Vec<char>>)
    ensures
        r@.map_values(|p: Vec<char>| p@) == split_on(s@, '-'),
{
    let chars = chars_of(s);
    let n = chars.len();
    let mut parts: Vec<Vec<char>> = Vec::new();
    parts.push(Vec::new());
    let mut i: usize = 0;
    assert(parts@.map_values(|p: Vec<char>| p@) =~= split_on(s@.take(0), '-'));
    while i < n
        invariant
            n == s@.len(),
            chars@ == s@,
            i <= n,
            parts@.len() >= 1,
            parts@.map_values(|p: Vec<char>| p@) == split_on(s@.take(i as int), '-'),
        decreases n - i,
    {
        let ghost before = parts@.map_values(|p: Vec<char>| p@);
        assert(s@.take(i + 1).drop_last() =~= s@.take(i as int));
        let c = chars[i];
        if c == '-' {
            parts.push(Vec::new());
            assert(parts@.map_values(|p: Vec<char>| p@) =~= before.push(Seq::empty()));
        } else {
            let mut last = parts.pop().unwrap();
            last.push(c);
            parts.push(last);
            assert(parts@.map_values(|p: Vec<char>| p@) =~= before.update(
                before.len() - 1,
                before.last().push(c),
            ));
        }
        i = i + 1;
    }
    assert(s@.take(n as int) =~= s@);
    parts
}

fn parse_i32_text(chars: &[char]) -> (r: Option<i32>)
    ensures
        match r {
            Some(v) => parse_i32(chars@) == Some(v as int),
            None => parse_i32(chars@) is None,
        },
{
    if chars.len() > 0 && chars[0] == '-' {
        let body = &chars[1..chars.len()];
        assert(body@ =~= chars@.drop_first());
        if body.len() > 0 && body[0] == '+' {
            assert(!crate::text::is_digit_char(body@[0]));
            return None;
        }
        proof {
            if body@.len() > 0 {
                assert(!(body@[0] == '+'));
            }
        }
        match parse_unsigned_text(body, 2147483648) {
            Some(v) => {
                assert(v <= 2147483648);
                Some((0 - v as i64) as i32)
            },
            None => None,
        }
    } else {
        match parse_unsigned_text(chars, 2147483647) {
            Some(v) => Some(v as i32),
            None => None,
        }
    }
}

/// The date that a `Y-M-D` text names, or the refusal that names the field.
pub fn parse_iso_date(field: &'static str, value: &str) -> (r: Result<DateOfBirth, ApiError>)
    ensures
        match r {
            Ok(d) => named_date(value@) == Some(d@),
            Err(e) => named_date(value@) is None && (e matches ApiError::InvalidField {
                field: f,
                value: v,
            } && f == field && v@ == value@),
        },
{
    let parts = split_dashes(value);
    proof {
        assert(parts@.len() == split_on(value@, '-').len());
    }
    if parts.len() != 3 {
        return Err(ApiError::InvalidField { field, value: String::from_str(value) });
    }
    assert(parts@[0]@ == split_on(value@, '-')[0]);
    assert(parts@[1]@ == split_on(value@, '-')[1]);
    assert(parts@[2]@ == split_on(value@, '-')[2]);
    let year = match parse_i32_text(parts[0].as_slice()) {
        Some(y) => y,
        None => return Err(ApiError::InvalidField { field, value: String::from_str(value) }),
    };
    let month = match parse_unsigned_text(parts[1].as_slice(), 4294967295) {
        Some(m) => m as u32,
        None => return Err(ApiError::InvalidField { field, value: String::from_str(value) }),
    };
    let day = match parse_unsigned_text(parts[2].as_slice(), 4294967295) {
        Some(d) => d as u32,
        None => return Err(ApiError::InvalidField { field, value: String::from_str(value) }),
    };
    match DateOfBirth::new(year, month, day) {
        Ok(d) => Ok(d),
        Err(_) => Err(ApiError::InvalidField { field, value: String::from_str(value) }),
    }
}

/// The people that a request asks for, drawn in turn from `rand`'s standard generator
/// seeded with `resolved_seed`, and that seed: as many as requested (1 to `MAX_COUNT`,
/// one by default), each a consistent profile that meets the request. The request's
/// own seed is not read.
pub fn generate_people_with_seed(request: &GenerateRequest, resolved_seed: u64) -> (r: Result<
    (Vec<PersonDto>, u64),
    ApiError,
>)
    ensures
        match r {
            Ok((people, seed)) => {
                &&& 1 <= requested_count(*request) <= MAX_COUNT
                &&& first_invalid_date(*request) is None
                &&& people.len() == requested_count(*request)
                &&& seed == resolved_seed
                &&& forall|i: int|
                    0 <= i < people.len() ==> #[trigger] answers_request(people@[i], *request)
            },
            Err(ApiError::InvalidCount { count, max }) => !(1 <= requested_count(*request)
                <= MAX_COUNT) && count == requested_count(*request) && max == MAX_COUNT,
            Err(ApiError::InvalidField { field, value }) => 1 <= requested_count(*request)
                <= MAX_COUNT && first_invalid_date(*request) == Some((field@, value@)),
            Err(ApiError::Generation(g)) => {
                &&& 1 <= requested_count(*request) <= MAX_COUNT
                &&& first_invalid_date(*request) is None
                &&& reports_requested_range(g, *request)
                &&& (request.min_date is Some && request.max_date is Some) ==> requested_range_error(
                    g,
                    *request,
                )
            },
        },
        (1 <= requested_count(*request) <= MAX_COUNT && first_invalid_date(*request) is None
            && request.min_date is Some && request.max_date is Some) ==> (r is Ok <==> (date_le(
            named_date(request.min_date->0@)->0,
            named_date(request.max_date->0@)->0,
        ) && (named_date(request.min_date->0@)->0).0 >= PESEL_MIN_YEAR && (named_date(
            request.max_date->0@,
        )->0).0 <= PESEL_MAX_YEAR)),
{
    let count = match request.count {
        Some(c) => c,
        None => 1,
    };
    if count == 0 || count > MAX_COUNT {
        return Err(ApiError::InvalidCount { count, max: MAX_COUNT });
    }

    let (default_min, default_max) = default_date_range();
    proof {
        let today = choose|t: (int, int, int)|
            is_date(t) && #[trigger] default_range_of(t) == (
                day_number(default_min@),
                day_number(default_max@),
            );
        assert(default_range_of(today).0 == day_number(default_min@));
        assert(default_range_of(today).1 == day_number(default_max@));
    }
    let date_range = match (&request.min_date, &request.max_date) {
        (Some(min), Some(max)) => {
            let lo = match parse_iso_date("min_date", min.as_str()) {
                Ok(d) => d,
                Err(e) => return Err(e),
            };
            let hi = match parse_iso_date("max_date", max.as_str()) {
                Ok(d) => d,
                Err(e) => return Err(e),
            };
            Some((lo, hi))
        },
        (Some(min), None) => {
            let lo = match parse_iso_date("min_date", min.as_str()) {
                Ok(d) => d,
                Err(e) => return Err(e),
            };
            Some((lo, default_max))
        },
        (None, Some(max)) => {
            let hi = match parse_iso_date("max_date", max.as_str()) {
                Ok(d) => d,
                Err(e) => return Err(e),
            };
            Some((default_min, hi))
        },
        (None, None) => None,
    };

    let gender = match request.gender {
        Some(GenderDto::Male) => Some(Gender::Male),
        Some(GenderDto::Female) => Some(Gender::Female),
        None => None,
    };
    let constraints = PersonConstraints { gender, date_range };

    let mut rng = seeded_rng(resolved_seed);

    if let Some((lo, hi)) = &constraints.date_range {
        // Each bound is a valid date; `year` says so.
        let _: i32 = lo.year();
        let _: i32 = hi.year();
    }
    let mut people: Vec<PersonDto> = Vec::new();
    let mut i: u8 = 0;
    while i < count
        invariant
            i <= count,
            people.len() == i,
            count == requested_count(*request),
            1 <= count <= MAX_COUNT,
            first_invalid_date(*request) is None,
            i > 0 ==> (constraints.date_range matches Some(range) ==> range_error(
                range.0,
                range.1,
            ) is None),
            constraints.gender == (match request.gender {
                Some(g) => Some(gender_of(g)),
                None => None,
            }),
            constraints.date_range matches Some(range) ==> (request.min_date matches Some(t)
                ==> range.0@ == named_date(t@)->0) && (request.max_date matches Some(t)
                ==> range.1@ == named_date(t@)->0),
            request.min_date is Some || request.max_date is Some <==> constraints.date_range is Some,
            constraints.date_range matches Some(range) ==> is_date(range.0@) && is_date(range.1@),
            constraints.date_range matches Some(range) ==> (request.min_date is None
                ==> is_default_min(range.0@)) && (request.max_date is None ==> is_default_max(
                range.1@,
            )),
            forall|j: int| 0 <= j < people.len() ==> #[trigger] answers_request(people@[j], *request),
        decreases count - i,
    {
        let profile = match generate_test_profile(&mut rng, &constraints) {
            Ok(p) => p,
            Err(e) => {
                proof {
                    if let Some(range) = constraints.date_range {
                        assert(range_error(range.0, range.1) == Some(e));
                        assert(reports_requested_range(e, *request));
                    }
                }
                return Err(ApiError::Generation(e));
            },
        };
        let ghost p = profile;
        let dto = PersonDto::new(profile);
        proof {
            assert(describes(dto, p));
            let d = pesel_date(p.person.pesel@);
            if constraints.date_range is Some {
                let range = constraints.date_range->0;
                lemma_day_number_order(range.0@, d);
                lemma_day_number_order(d, range.1@);
                if request.min_date is None {
                    let today = choose|t: (int, int, int)|
                        is_date(t) && (#[trigger] default_range_of(t)).0 == day_number(range.0@);
                    assert(default_range_of(today).0 <= day_number(d));
                }
                if request.max_date is None {
                    let today = choose|t: (int, int, int)|
                        is_date(t) && (#[trigger] default_range_of(t)).1 == day_number(range.1@);
                    assert(day_number(d) <= default_range_of(today).1);
                }
            }
            assert(meets_request(p, *request));
        }
        people.push(dto);
        proof {
            assert forall|j: int| 0 <= j < people.len() implies #[trigger] answers_request(
                people@[j],
                *request,
            ) by {
                if j == people.len() - 1 {
                    assert(describes(people@[j], p));
                } else {
                    assert(people@[j] == people@.drop_last()[j]);
                }
            }
        }
        i = i + 1;
    }

    Ok((people, resolved_seed))
}

/// The people that a request asks for, with the seed that they were generated from:
/// as many as requested (1 to `MAX_COUNT`, one by default), each a consistent profile
/// that meets the request: `generate_people_with_seed` with the requested seed (or a
/// fresh one), which is the seed returned.
pub fn generate_people(request: &GenerateRequest) -> (r: Result<(Vec<PersonDto>, u64), ApiError>)
    ensures
        match r {
            Ok((people, seed)) => {
                &&& 1 <= requested_count(*request) <= MAX_COUNT
                &&& first_invalid_date(*request) is None
                &&& people.len() == requested_count(*request)
                &&& (request.seed matches Some(s) ==> seed == s)
                &&& forall|i: int|
                    0 <= i < people.len() ==> #[trigger] answers_request(people@[i], *request)
            },
            Err(ApiError::InvalidCount { count, max }) => !(1 <= requested_count(*request)
                <= MAX_COUNT) && count == requested_count(*request) && max == MAX_COUNT,
            Err(ApiError::InvalidField { field, value }) => 1 <= requested_count(*request)
                <= MAX_COUNT && first_invalid_date(*request) == Some((field@, value@)),
            Err(ApiError::Generation(g)) => {
                &&& 1 <= requested_count(*request) <= MAX_COUNT
                &&& first_invalid_date(*request) is None
                &&& reports_requested_range(g, *request)
                &&& (request.min_date is Some && request.max_date is Some) ==> requested_range_error(
                    g,
                    *request,
                )
            },
        },
        (1 <= requested_count(*request) <= MAX_COUNT && first_invalid_date(*request) is None
            && request.min_date is Some && request.max_date is Some) ==> (r is Ok <==> (date_le(
            named_date(request.min_date->0@)->0,
            named_date(request.max_date->0@)->0,
        ) && (named_date(request.min_date->0@)->0).0 >= PESEL_MIN_YEAR && (named_date(
            request.max_date->0@,
        )->0).0 <= PESEL_MAX_YEAR)),
{
    let resolved_seed = match request.seed {
        Some(s) => s,
        None => fresh_seed(),
    };
    generate_people_with_seed(request, resolved_seed)
}

} // verus!
