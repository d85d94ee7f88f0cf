//! A full synthetic test profile: a person with a NIP number, an address, a phone
//! number, an email address, an identity document number and a bank account.
use rand::rngs::StdRng;
use vstd::prelude::*;

use crate::address::{generate_address, polish_cities, Address};
use crate::document::{generate_id_document_number, is_id_document, IdDocumentNumber};
use crate::email::{generate_email, sanitized, EmailAddress};
use crate::generate::{is_generation_error, range_error, satisfies_constraints, GenerationError};
use crate::iban::{generate_iban, is_iban_digits, Iban};
use crate::nip::{generate_nip, is_nip_digits, Nip};
use crate::person::{generate_person, is_consistent_person, Person, PersonConstraints};
use crate::phone::{generate_phone_number, is_phone_digits, PhoneNumber};
use crate::text::{all_decimal, decimal_text};

verus! {

/// A synthetic person with every other identifier that a test may need.
#[derive(Debug, Clone, PartialEq, Eq)]
pub struct TestProfile {
    pub person: Person,
    pub nip: Nip,
    pub address: Address,
    pub phone: PhoneNumber,
    pub email: EmailAddress,
    pub id_document: IdDocumentNumber,
    pub iban: Iban,
}

/// A generated profile: a consistent person, valid identifiers, an address in a known
/// city and an email address made of the person's names.
pub open spec fn is_consistent_profile(p: TestProfile) -> bool {
    &&& is_consistent_person(p.person)
    &&& is_nip_digits(p.nip@)
    &&& polish_cities().contains(p.address.city@)
    &&& all_decimal(p.address.postal_code@)
    &&& is_phone_digits(p.phone@)
    &&& exists|n: int|
        10 <= n <= 999 && p.email@.0 == sanitized(p.person.first_name@) + seq!['.'] + sanitized(
            p.person.last_name@,
        ) + #[trigger] decimal_text(n as nat)
    &&& is_id_document(p.id_document@.0, p.id_document@.1)
    &&& is_iban_digits(p.iban@)
}

/// A random profile for the constraints: a person as `generate_person` draws them, then
/// the other identifiers in turn.
pub fn generate_test_profile(rng: &mut StdRng, constraints: &PersonConstraints) -> (r: Result<
    TestProfile,
    GenerationError,
>)
    ensures
        match r {
            Ok(p) => is_consistent_profile(p) && satisfies_constraints(
                p.person.pesel@,
                constraints.gender,
                constraints.date_range,
            ),
            Err(e) => is_generation_error(e, constraints.date_range),
        },
        constraints.date_range matches Some(range) ==> (r is Ok <==> range_error(range.0, range.1)
            is None),
        r is Err ==> *final(rng) == *old(rng),
{
    let person = match generate_person(rng, constraints) {
        Ok(p) => p,
        Err(e) => return Err(e),
    };
    let nip = generate_nip(rng);
    let address = generate_address(rng);
    let phone = generate_phone_number(rng);
    let email = generate_email(rng, person.first_name.as_str(), person.last_name.as_str());
    let id_document = generate_id_document_number(rng);
    let iban = generate_iban(rng);

    Ok(TestProfile { person, nip, address, phone, email, id_document, iban })
}

} // verus!
