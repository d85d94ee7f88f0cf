//! Why a request for generated people is refused, and the message it is refused with.
use vstd::prelude::*;
use vstd::string::*;

use crate::dto::FormParseError;
use crate::generate::{generation_error_text, GenerationError};
use crate::text::{decimal_text, push_decimal};

verus! {

/// Why a request is refused.
#[derive(Debug)]
pub enum ApiError {
    Generation(GenerationError),
    InvalidField { field: &'static str, value: String },
    InvalidCount { count: u8, max: u8 },
}

/// The message of a refusal.
pub open spec fn api_error_text(e: ApiError) -> Seq<char> {
    match e {
        ApiError::Generation(g) => generation_error_text(g),
        ApiError::InvalidField { field, value } => "'"@ + value@ + "' is not a valid value for '"@
            + field@ + "'"@,
        ApiError::InvalidCount { count, max } => "count must be between 1 and "@ + decimal_text(
            max as nat,
        ) + ", got "@ + decimal_text(count as nat),
    }
}

impl ApiError {
    /// The message of the refusal.
    pub fn message(&self) -> (r: String)
        ensures
            r@ == api_error_text(*self),
    {
        match self {
            ApiError::Generation(err) => err.to_string(),
            ApiError::InvalidField { field, value } => {
                let mut s = String::from_str("'");
                s.append(value.as_str());
                s.append("' is not a valid value for '");
                s.append(field);
                s.append("'");
                s
            },
            ApiError::InvalidCount { count, max } => {
                let mut s = String::from_str("count must be between 1 and ");
                push_decimal(&mut s, *max as u64);
                s.append(", got ");
                push_decimal(&mut s, *count as u64);
                s
            },
        }
    }
}

impl From<GenerationError> for ApiError {
    fn from(err: GenerationError) -> (r: Self) {
        ApiError::Generation(err)
    }
}

impl vstd::std_specs::convert::FromSpecImpl<GenerationError> for ApiError {
    open spec fn obeys_from_spec() -> bool {
        true
    }

    open spec fn from_spec(err: GenerationError) -> ApiError {
        ApiError::Generation(err)
    }
}

impl From<FormParseError> for ApiError {
    fn from(err: FormParseError) -> (r: Self) {
        ApiError::InvalidField { field: err.field, value: err.value }
    }
}

impl vstd::std_specs::convert::FromSpecImpl<FormParseError> for ApiError {
    open spec fn obeys_from_spec() -> bool {
        true
    }

    open spec fn from_spec(err: FormParseError) -> ApiError {
        ApiError::InvalidField { field: err.field, value: err.value }
    }
}

} // verus!
