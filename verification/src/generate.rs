//! Random PESEL numbers within a range of birth dates and for a gender.
use rand::rngs::StdRng;
use vstd::prelude::*;
use vstd::string::*;

use crate::calendar::{
    date_le, date_text, day_number, is_date, lemma_day_number_order, lemma_day_number_range, DateOfBirth,
    MAX_DAY_NUMBER, MIN_DAY_NUMBER, MIN_YEAR,
};
use crate::pesel::{
    is_pesel_digits, lemma_pesel_text_parses, pesel_date, pesel_digits_for, pesel_gender, Gender,
    Pesel,
};
use crate::random::{random_i32_in, random_ratio, random_u16_in};

verus! {

/// The earliest year of birth that PESEL encodes.
pub const PESEL_MIN_YEAR: i32 = 1800;

/// The latest year of birth that PESEL encodes.
pub const PESEL_MAX_YEAR: i32 = 2299;

/// What a generated PESEL number must satisfy; `None` leaves a property free.
#[derive(Debug, Clone, Copy, Default)]
pub struct PeselConstraints {
    pub gender: Option<Gender>,
    pub date_range: Option<(DateOfBirth, DateOfBirth)>,
}

/// Why no PESEL number can be generated for the constraints.
#[derive(Debug, Clone, PartialEq, Eq)]
pub enum GenerationError {
    InvalidDateRange { min: DateOfBirth, max: DateOfBirth },
    DateRangeOutsidePeselEncodableYears { min: DateOfBirth, max: DateOfBirth },
}

/// The message of a generation error.
pub open spec fn generation_error_text(e: GenerationError) -> Seq<char> {
    match e {
        GenerationError::InvalidDateRange { min, max } => "invalid date range: min ("@ + date_text(
            min@,
        ) + ") is after max ("@ + date_text(max@) + ")"@,
        GenerationError::DateRangeOutsidePeselEncodableYears { min, max } => "date range "@
            + date_text(min@) + "..="@ + date_text(max@)
            + " falls outside the years PESEL can encode (1800-2299)"@,
    }
}

impl GenerationError {
    /// The message of the error.
    pub fn to_string(&self) -> (r: String)
        ensures
            r@ == generation_error_text(*self),
    {
        match self {
            GenerationError::InvalidDateRange { min, max } => {
                let mut s = String::from_str("invalid date range: min (");
                s.append(min.to_string().as_str());
                s.append(") is after max (");
                s.append(max.to_string().as_str());
                s.append(")");
                s
            },
            GenerationError::DateRangeOutsidePeselEncodableYears { min, max } => {
                let mut s = String::from_str("date range ");
                s.append(min.to_string().as_str());
                s.append("..=");
                s.append(max.to_string().as_str());
                s.append(" falls outside the years PESEL can encode (1800-2299)");
                s
            },
        }
    }
}

/// The error that a range of birth dates gets, if any: an inverted range first, then
/// one that reaches outside the years PESEL encodes.
pub open spec fn range_error(min: DateOfBirth, max: DateOfBirth) -> Option<GenerationError> {
    if !date_le(min@, max@) {
        Some(GenerationError::InvalidDateRange { min, max })
    } else if min@.0 < PESEL_MIN_YEAR || max@.0 > PESEL_MAX_YEAR {
        Some(GenerationError::DateRangeOutsidePeselEncodableYears { min, max })
    } else {
        None
    }
}

/// A PESEL number's digits satisfy a gender and a range of birth dates, where given.
pub open spec fn satisfies_constraints(
    d: Seq<u8>,
    gender: Option<Gender>,
    date_range: Option<(DateOfBirth, DateOfBirth)>,
) -> bool {
    &&& (gender matches Some(g) ==> pesel_gender(d) == g)
    &&& (date_range matches Some(range) ==> date_le(range.0@, pesel_date(d)) && date_le(
        pesel_date(d),
        range.1@,
    ))
    &&& (date_range is None ==> within_default_range(pesel_date(d)))
}

/// The day numbers of the default range of birth dates for a day: 90 * 365 and
/// 18 * 365 days before it (each no earlier than the first day that `chrono`
/// represents).
pub open spec fn default_range_of(today: (int, int, int)) -> (int, int) {
    (
        day_number_before(day_number(today), 90int * 365),
        day_number_before(day_number(today), 18int * 365),
    )
}

/// A range of birth dates is the default one for some day.
pub open spec fn is_default_range(min: (int, int, int), max: (int, int, int)) -> bool {
    exists|today: (int, int, int)|
        is_date(today) && #[trigger] default_range_of(today) == (day_number(min), day_number(max))
}

/// A date is the first of the default range of birth dates for some day.
pub open spec fn is_default_min(min: (int, int, int)) -> bool {
    exists|today: (int, int, int)|
        is_date(today) && (#[trigger] default_range_of(today)).0 == day_number(min)
}

/// A date is the last of the default range of birth dates for some day.
pub open spec fn is_default_max(max: (int, int, int)) -> bool {
    exists|today: (int, int, int)|
        is_date(today) && (#[trigger] default_range_of(today)).1 == day_number(max)
}

/// A date is no earlier than the first of the default range for some day.
pub open spec fn after_some_default_min(date: (int, int, int)) -> bool {
    exists|today: (int, int, int)|
        is_date(today) && (#[trigger] default_range_of(today)).0 <= day_number(date)
}

/// A date is no later than the last of the default range for some day.
pub open spec fn before_some_default_max(date: (int, int, int)) -> bool {
    exists|today: (int, int, int)|
        is_date(today) && day_number(date) <= (#[trigger] default_range_of(today)).1
}

/// A date lies within the default range of birth dates for some day.
pub open spec fn within_default_range(date: (int, int, int)) -> bool {
    exists|today: (int, int, int)|
        is_date(today) && (#[trigger] default_range_of(today)).0 <= day_number(date)
            <= default_range_of(today).1
}

/// The error of a generation is that of the given range of birth dates; without a given
/// range, it is that a default range (for the day of the call) reaches outside the
/// years PESEL encodes, reported with that range's bounds.
pub open spec fn is_generation_error(
    e: GenerationError,
    date_range: Option<(DateOfBirth, DateOfBirth)>,
) -> bool {
    match date_range {
        Some(range) => range_error(range.0, range.1) == Some(e),
        None => e matches GenerationError::DateRangeOutsidePeselEncodableYears { min, max }
            && range_error(min, max) == Some(e) && is_default_range(min@, max@),
    }
}

/// The day `days` days before the date with day number `today_days`, or the first day
/// that `chrono` represents where that lies before it.
pub open spec fn day_number_before(today_days: int, days: int) -> int {
    if today_days - days >= MIN_DAY_NUMBER {
        today_days - days
    } else {
        MIN_DAY_NUMBER as int
    }
}

/// The default range of birth dates for a given day: from 90 * 365 days before it to
/// 18 * 365 days before it (each bound no earlier than the first day that `chrono`
/// represents).
pub fn default_date_range_from(today: DateOfBirth) -> (r: (DateOfBirth, DateOfBirth))
    ensures
        day_number(r.0@) == day_number_before(day_number(today@), 90int * 365),
        day_number(r.1@) == day_number_before(day_number(today@), 18int * 365),
        date_le(r.0@, r.1@),
        is_date(r.0@),
        is_date(r.1@),
{
    let min = today.days_earlier_or_first(90 * 365);
    let max = today.days_earlier_or_first(18 * 365);
    proof {
        assert(day_number((MIN_YEAR as int, 1int, 1int)) == MIN_DAY_NUMBER);
        lemma_day_number_order(min@, max@);
    }
    (min, max)
}

/// The default range of birth dates: people aged 18 to 90 years (of 365 days) today,
/// by the local clock.
pub fn default_date_range() -> (r: (DateOfBirth, DateOfBirth))
    ensures
        date_le(r.0@, r.1@),
        is_date(r.0@),
        is_date(r.1@),
        is_default_range(r.0@, r.1@),
{
    let today = crate::calendar::local_today();
    let r = default_date_range_from(today);
    assert(default_range_of(today@) == (day_number(r.0@), day_number(r.1@)));
    r
}

/// A date drawn from `min..=max`, by day number.
fn random_date_in_range(rng: &mut StdRng, min: DateOfBirth, max: DateOfBirth) -> (r: DateOfBirth)
    requires
        date_le(min@, max@),
    ensures
        date_le(min@, r@),
        date_le(r@, max@),
        is_date(r@),
{
    let min_days = min.day_number();
    let max_days = max.day_number();
    proof {
        lemma_day_number_order(min@, max@);
        lemma_day_number_range(min@);
        lemma_day_number_range(max@);
    }
    let chosen_days = random_i32_in(rng, min_days, max_days);
    match DateOfBirth::from_day_number(chosen_days) {
        Some(d) => {
            proof {
                lemma_day_number_order(min@, d@);
                lemma_day_number_order(d@, max@);
            }
            d
        },
        None => vstd::pervasive::unreached(),
    }
}

/// A random valid PESEL number: born within the constraints' range of dates (by
/// default the one of `default_date_range`), of the constraints' gender (by default
/// either, with even chance), with a serial drawn from 0 to 999.
pub fn generate_pesel(rng: &mut StdRng, constraints: &PeselConstraints) -> (r: Result<
    Pesel,
    GenerationError,
>)
    ensures
        match r {
            Ok(p) => {
                &&& is_pesel_digits(p@)
                &&& crate::pesel::pesel_parse(crate::text::digits_text(p@)) == Ok::<
                    Seq<u8>,
                    crate::pesel::PeselError,
                >(p@)
                &&& satisfies_constraints(p@, constraints.gender, constraints.date_range)
            },
            Err(e) => is_generation_error(e, constraints.date_range),
        },
        constraints.date_range matches Some(range) ==> (r is Ok <==> range_error(range.0, range.1)
            is None),
        r is Err ==> *final(rng) == *old(rng),
{
    let (min, max) = match constraints.date_range {
        Some(range) => range,
        None => default_date_range(),
    };

    if min.is_after(&max) {
        return Err(GenerationError::InvalidDateRange { min, max });
    }
    if min.year() < PESEL_MIN_YEAR || max.year() > PESEL_MAX_YEAR {
        return Err(GenerationError::DateRangeOutsidePeselEncodableYears { min, max });
    }

    let dob = random_date_in_range(rng, min, max);
    proof {
        if constraints.date_range is None {
            let today = choose|t: (int, int, int)|
                is_date(t) && #[trigger] default_range_of(t) == (day_number(min@), day_number(max@));
            lemma_day_number_order(min@, dob@);
            lemma_day_number_order(dob@, max@);
            assert(default_range_of(today).0 <= day_number(dob@) <= default_range_of(today).1);
        }
    }

    let gender = match constraints.gender {
        Some(g) => g,
        None => if random_ratio(rng, 1, 2) {
            Gender::Male
        } else {
            Gender::Female
        },
    };

    let serial: u16 = random_u16_in(rng, 0, 999);

    match Pesel::from_parts(dob, gender, serial) {
        Ok(p) => {
            proof {
                crate::pesel::lemma_pesel_encoding_decodes(dob@, gender, serial as int);
                lemma_pesel_text_parses(p@);
            }
            Ok(p)
        },
        Err(_) => vstd::pervasive::unreached(),
    }
}

} // verus!
