//! Synthetic people: a first name and a surname that agree with the gender of a
//! generated PESEL number, and the date of birth that it encodes.
use rand::rngs::StdRng;
use vstd::prelude::*;
use vstd::string::*;

use crate::calendar::DateOfBirth;
use crate::generate::{
    generate_pesel, is_generation_error, range_error, satisfies_constraints, GenerationError,
    PeselConstraints,
};
use crate::pesel::{is_pesel_digits, pesel_date, pesel_gender, Gender, Pesel};
use crate::random::{random_index, random_ratio};

verus! {

/// A synthetic person.
#[derive(Debug, Clone, PartialEq, Eq)]
pub struct Person {
    pub first_name: String,
    pub last_name: String,
    pub gender: Gender,
    pub date_of_birth: DateOfBirth,
    pub pesel: Pesel,
}

/// What a generated person must satisfy; `None` leaves a property free.
#[derive(Debug, Clone, Copy, Default)]
pub struct PersonConstraints {
    pub gender: Option<Gender>,
    pub date_range: Option<(DateOfBirth, DateOfBirth)>,
}

/// The first names given to people of a gender.
pub open spec fn first_names(g: Gender) -> Seq<Seq<char>> {
    match g {
        Gender::Male => seq![
            "Jan"@,
            "Piotr"@,
            "Krzysztof"@,
            "Andrzej"@,
            "Tomasz"@,
            "Paweł"@,
            "Michał"@,
            "Marcin"@,
            "Grzegorz"@,
            "Tadeusz"@,
            "Jerzy"@,
            "Dariusz"@,
            "Marek"@,
            "Łukasz"@,
            "Wojciech"@,
            "Adam"@,
            "Kamil"@,
            "Rafał"@,
            "Stanisław"@,
            "Zbigniew"@,
        ],
        Gender::Female => seq![
            "Anna"@,
            "Maria"@,
            "Katarzyna"@,
            "Małgorzata"@,
            "Agnieszka"@,
            "Barbara"@,
            "Ewa"@,
            "Elżbieta"@,
            "Krystyna"@,
            "Magdalena"@,
            "Joanna"@,
            "Danuta"@,
            "Teresa"@,
            "Zofia"@,
            "Beata"@,
            "Monika"@,
            "Alicja"@,
            "Halina"@,
            "Irena"@,
            "Justyna"@,
        ],
    }
}

/// Surnames that are the same for every gender.
pub open spec fn invariant_surnames() -> Seq<Seq<char>> {
    seq!["Nowak"@, "Kowalczyk"@, "Wójcik"@, "Zając"@, "Woźniak"@, "Kaczmarek"@]
}

/// Stems of surnames that take a gendered ending.
pub open spec fn surname_stems() -> Seq<Seq<char>> {
    seq![
        "Kowal"@,
        "Wiśniew"@,
        "Zieliń"@,
        "Wilcz"@,
        "Krawcz"@,
        "Wieczor"@,
        "Głowa"@,
        "Baran"@,
        "Sikor"@,
        "Ostrow"@,
        "Kamiń"@,
        "Lewandow"@,
        "Szymań"@,
        "Piotrow"@,
    ]
}

/// The surname ending of a gender: `ski` or `ska`.
pub open spec fn surname_ending(g: Gender) -> Seq<char> {
    match g {
        Gender::Male => seq!['s', 'k', 'i'],
        Gender::Female => seq!['s', 'k', 'a'],
    }
}

/// A surname given to people of a gender: an invariant one, or a stem with the
/// gender's ending.
pub open spec fn is_surname_for(name: Seq<char>, g: Gender) -> bool {
    ||| invariant_surnames().contains(name)
    ||| exists|i: int| 0 <= i < 14 && name == #[trigger] surname_stems()[i] + surname_ending(g)
}

/// `s` ends with `suffix`.
pub open spec fn ends_with(s: Seq<char>, suffix: Seq<char>) -> bool {
    suffix.len() <= s.len() && s.subrange(s.len() - suffix.len(), s.len() as int) == suffix
}

/// A generated person: names that agree with the gender, and gender and date of birth
/// that are those of the PESEL number.
pub open spec fn is_consistent_person(p: Person) -> bool {
    &&& is_pesel_digits(p.pesel@)
    &&& p.gender == pesel_gender(p.pesel@)
    &&& p.date_of_birth@ == pesel_date(p.pesel@)
    &&& first_names(p.gender).contains(p.first_name@)
    &&& is_surname_for(p.last_name@, p.gender)
}

/// A surname that is not invariant carries the ending of the person's gender.
pub proof fn lemma_inflected_surname_ending(name: Seq<char>, g: Gender)
    requires
        is_surname_for(name, g),
        !invariant_surnames().contains(name),
    ensures
        ends_with(name, surname_ending(g)),
{
    let i = choose|i: int| 0 <= i < 14 && name == #[trigger] surname_stems()[i] + surname_ending(g);
    let stem = surname_stems()[i];
    assert(name.subrange(name.len() - 3, name.len() as int) =~= surname_ending(g));
}

/// No surname given to a woman ends in the masculine `ski`.
pub proof fn lemma_female_surname_not_ski(name: Seq<char>)
    requires
        is_surname_for(name, Gender::Female),
    ensures
        !ends_with(name, seq!['s', 'k', 'i']),
{
    reveal_strlit("Nowak");
    reveal_strlit("Kowalczyk");
    reveal_strlit("Wójcik");
    reveal_strlit("Zając");
    reveal_strlit("Woźniak");
    reveal_strlit("Kaczmarek");
    if invariant_surnames().contains(name) {
        let j = choose|j: int| 0 <= j < 6 && invariant_surnames()[j] == name;
        assert(name.last() != 'i');
        if ends_with(name, seq!['s', 'k', 'i']) {
            assert(name.subrange(name.len() - 3, name.len() as int)[2] == name.last());
        }
    } else {
        lemma_inflected_surname_ending(name, Gender::Female);
        if ends_with(name, seq!['s', 'k', 'i']) {
            assert(name.subrange(name.len() - 3, name.len() as int)[2] == 'i');
        }
    }
}

fn pick_first_name(rng: &mut StdRng, gender: Gender) -> (r: &'static str)
    ensures
        first_names(gender).contains(r@),
{
    let i = random_index(rng, 20);
    let names: [&'static str; 20] = match gender {
        Gender::Male => [
            "Jan",
            "Piotr",
            "Krzysztof",
            "Andrzej",
            "Tomasz",
            "Paweł",
            "Michał",
            "Marcin",
            "Grzegorz",
            "Tadeusz",
            "Jerzy",
            "Dariusz",
            "Marek",
            "Łukasz",
            "Wojciech",
            "Adam",
            "Kamil",
            "Rafał",
            "Stanisław",
            "Zbigniew",
        ],
        Gender::Female => [
            "Anna",
            "Maria",
            "Katarzyna",
            "Małgorzata",
            "Agnieszka",
            "Barbara",
            "Ewa",
            "Elżbieta",
            "Krystyna",
            "Magdalena",
            "Joanna",
            "Danuta",
            "Teresa",
            "Zofia",
            "Beata",
            "Monika",
            "Alicja",
            "Halina",
            "Irena",
            "Justyna",
        ],
    };
    let name = names[i];
    assert(first_names(gender)[i as int] == name@);
    name
}

fn invariant_surname(i: usize) -> (r: &'static str)
    requires
        i < 6,
    ensures
        r@ == invariant_surnames()[i as int],
{
    let names: [&'static str; 6] = ["Nowak", "Kowalczyk", "Wójcik", "Zając", "Woźniak", "Kaczmarek"];
    names[i]
}

fn surname_stem(i: usize) -> (r: &'static str)
    requires
        i < 14,
    ensures
        r@ == surname_stems()[i as int],
{
    let stems: [&'static str; 14] = [
        "Kowal",
        "Wiśniew",
        "Zieliń",
        "Wilcz",
        "Krawcz",
        "Wieczor",
        "Głowa",
        "Baran",
        "Sikor",
        "Ostrow",
        "Kamiń",
        "Lewandow",
        "Szymań",
        "Piotrow",
    ];
    stems[i]
}

fn pick_last_name(rng: &mut StdRng, gender: Gender) -> (r: String)
    ensures
        is_surname_for(r@, gender),
{
    if random_ratio(rng, 1, 2) {
        let i = random_index(rng, 6);
        let name = String::from_str(invariant_surname(i));
        assert(invariant_surnames()[i as int] == name@);
        name
    } else {
        let i = random_index(rng, 14);
        let mut name = String::from_str(surname_stem(i));
        match gender {
            Gender::Male => {
                proof {
                    reveal_strlit("ski");
                }
                name.append("ski");
            },
            Gender::Female => {
                proof {
                    reveal_strlit("ska");
                }
                name.append("ska");
            },
        }
        assert(name@ =~= surname_stems()[i as int] + surname_ending(gender));
        name
    }
}

/// A random person for the constraints: a PESEL number as `generate_pesel` draws it,
/// then a first name and a surname for its gender.
pub fn generate_person(rng: &mut StdRng, constraints: &PersonConstraints) -> (r: Result<
    Person,
    GenerationError,
>)
    ensures
        match r {
            Ok(p) => is_consistent_person(p) && satisfies_constraints(
                p.pesel@,
                constraints.gender,
                constraints.date_range,
            ),
            Err(e) => is_generation_error(e, constraints.date_range),
        },
        constraints.date_range matches Some(range) ==> (r is Ok <==> range_error(range.0, range.1)
            is None),
        r is Err ==> *final(rng) == *old(rng),
{
    let pesel_constraints = PeselConstraints {
        gender: constraints.gender,
        date_range: constraints.date_range,
    };
    let pesel = match generate_pesel(rng, &pesel_constraints) {
        Ok(p) => p,
        Err(e) => return Err(e),
    };

    let gender = pesel.gender();
    let date_of_birth = pesel.date_of_birth();
    let first_name = String::from_str(pick_first_name(rng, gender));
    let last_name = pick_last_name(rng, gender);

    Ok(Person { first_name, last_name, gender, date_of_birth, pesel })
}

} // verus!
