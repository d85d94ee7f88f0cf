use vstd::prelude::*;

pub mod address;
pub mod calendar;
pub mod document;
pub mod dto;
pub mod email;
pub mod error;
pub mod generate;
pub mod iban;
pub mod lang;
pub mod nip;
pub mod person;
pub mod pesel;
pub mod phone;
pub mod profile;
pub mod random;
pub mod service;
pub mod templates;
pub mod text;

verus! {

/// `String::push` appends one character.
pub assume_specification[ String::push ](s: &mut String, ch: char)
    ensures
        final(s)@ == old(s)@.push(ch),
;

} // verus!
