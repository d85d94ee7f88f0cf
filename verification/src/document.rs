//! Polish identity document numbers: three capital letters, a check digit and five
//! digits.
use rand::rngs::StdRng;
use vstd::prelude::*;

use crate::random::random_u8_in;
use crate::text::{
    all_decimal, chars_of, digit_values, digits_text, first_non_digit,
    lemma_all_digits_first_non_digit, lemma_digits_text_values, push_digits, read_digits,
};

use crate::text::{decimal_text, push_decimal};

verus! {

/// A valid identity document number.
#[derive(Debug, Clone, Copy, PartialEq, Eq)]
pub struct IdDocumentNumber {
    letters: [u8; 3],
    digits: [u8; 6],
}

/// Why a text does not make an identity document number.
#[derive(Debug, Clone, PartialEq, Eq)]
pub enum IdDocumentNumberError {
    WrongLength { actual: usize },
    NonLetterCharacter { character: char },
    NonDigitCharacter { character: char },
    ChecksumMismatch { expected: u8, actual: u8 },
}

/// `c` is one of the ASCII capital letters `'A'..='Z'`.
pub open spec fn is_upper_char(c: char) -> bool {
    'A' <= c && c <= 'Z'
}

/// The first character of `s` that is not an ASCII capital letter, if any.
pub open spec fn first_non_upper(s: Seq<char>) -> Option<char>
    decreases s.len(),
{
    if s.len() == 0 {
        None
    } else if !is_upper_char(s[0]) {
        Some(s[0])
    } else {
        first_non_upper(s.drop_first())
    }
}

/// The letter values (A = 0, ..., Z = 25) of a sequence of capital letters.
pub open spec fn letter_values(s: Seq<char>) -> Seq<u8> {
    s.map_values(|c: char| (c as int - 'A' as int) as u8)
}

/// The capital letters of a sequence of letter values.
pub open spec fn letters_text(l: Seq<u8>) -> Seq<char> {
    l.map_values(|x: u8| (x as int + 'A' as int) as char)
}

/// A document number is valid exactly when its check digit (the first digit) is the
/// last decimal digit of the sum of the letter values plus 10 weighted 7, 3, 1 and the
/// five other digits weighted 7, 3, 1, 7, 3; so raising one of those digits by one
/// moves the check digit by its weight, modulo 10.
pub proof fn lemma_id_check_digit_is_weighted_sum(letters: Seq<u8>, digits: Seq<u8>)
    requires
        letters.len() == 3,
        digits.len() == 6,
        all_letters(letters),
        all_decimal(digits),
    ensures
        is_id_document(letters, digits) <==> digits[0] == (7 * (letters[0] + 10) + 3 * (letters[1]
            + 10) + 1 * (letters[2] + 10) + 7 * digits[1] + 3 * digits[2] + 1 * digits[3] + 7
            * digits[4] + 3 * digits[5]) % 10,
        forall|i: int|
            1 <= i <= 5 && digits[i] < 9 ==> #[trigger] id_check_digit(
                letters,
                digits.update(i, (digits[i] + 1) as u8).subrange(1, 6),
            ) == (id_check_digit(letters, digits.subrange(1, 6)) + (if i == 1 || i == 4 {
                7int
            } else if i == 2 || i == 5 {
                3int
            } else {
                1int
            })) % 10,
{
    let r = digits.subrange(1, 6);
    assert(r[0] == digits[1] && r[1] == digits[2] && r[2] == digits[3] && r[3] == digits[4] && r[4]
        == digits[5]);
    assert forall|i: int|
        1 <= i <= 5 && digits[i] < 9 implies #[trigger] id_check_digit(
        letters,
        digits.update(i, (digits[i] + 1) as u8).subrange(1, 6),
    ) == (id_check_digit(letters, digits.subrange(1, 6)) + (if i == 1 || i == 4 {
            7int
        } else if i == 2 || i == 5 {
            3int
        } else {
            1int
        })) % 10 by {
        let w: int = (if i == 1 || i == 4 {
            7int
        } else if i == 2 || i == 5 {
            3int
        } else {
            1int
        });
        let r2 = digits.update(i, (digits[i] + 1) as u8).subrange(1, 6);
        assert(forall|j: int| 0 <= j < 5 ==> #[trigger] r2[j] == if j == i - 1 {
            r[j] + 1
        } else {
            r[j] as int
        });
        let base = (letters[0] + 10) * 7 + (letters[1] + 10) * 3 + (letters[2] + 10) * 1 + r[0] * 7
            + r[1] * 3 + r[2] * 1 + r[3] * 7 + r[4] * 3;
        let moved = (letters[0] + 10) * 7 + (letters[1] + 10) * 3 + (letters[2] + 10) * 1 + r2[0]
            * 7 + r2[1] * 3 + r2[2] * 1 + r2[3] * 7 + r2[4] * 3;
        assert(moved == base + w);
        vstd::arithmetic::div_mod::lemma_add_mod_noop(base, w, 10);
        assert(w % 10 == w);
        assert((base % 10 + w) % 10 == (base + w) % 10);
    }
}

/// The check digit of three letter values and five digits: letters weighted 7, 3, 1
/// after adding 10 to each, digits weighted 7, 3, 1, 7, 3, all summed modulo 10.
pub open spec fn id_check_digit(letters: Seq<u8>, rest: Seq<u8>) -> int {
    ((letters[0] + 10) * 7 + (letters[1] + 10) * 3 + (letters[2] + 10) * 1 + rest[0] * 7 + rest[1]
        * 3 + rest[2] * 1 + rest[3] * 7 + rest[4] * 3) % 10
}

/// Every value of `l` is a letter value.
pub open spec fn all_letters(l: Seq<u8>) -> bool {
    forall|i: int| 0 <= i < l.len() ==> #[trigger] l[i] <= 25
}

/// The letter values and the six digits (check digit first) of a valid number.
pub open spec fn is_id_document(letters: Seq<u8>, digits: Seq<u8>) -> bool {
    &&& letters.len() == 3
    &&& digits.len() == 6
    &&& all_letters(letters)
    &&& all_decimal(digits)
    &&& digits[0] == id_check_digit(letters, digits.subrange(1, 6))
}

/// The text of a number: its letters, then its digits.
pub open spec fn id_document_text(letters: Seq<u8>, digits: Seq<u8>) -> Seq<char> {
    letters_text(letters) + digits_text(digits)
}

/// The text of a valid identity document number.
pub open spec fn id_document_text_is_valid(s: Seq<char>) -> bool {
    &&& s.len() == 9
    &&& first_non_upper(s.subrange(0, 3)) is None
    &&& first_non_digit(s.subrange(3, 9)) is None
    &&& is_id_document(letter_values(s.subrange(0, 3)), digit_values(s.subrange(3, 9)))
}

proof fn lemma_all_upper_first_non_upper(s: Seq<char>)
    ensures
        (forall|i: int| 0 <= i < s.len() ==> is_upper_char(#[trigger] s[i])) <==> first_non_upper(s)
            is None,
    decreases s.len(),
{
    if s.len() > 0 {
        lemma_all_upper_first_non_upper(s.drop_first());
        if is_upper_char(s[0]) && first_non_upper(s.drop_first()) is None {
            assert forall|i: int| 0 <= i < s.len() implies is_upper_char(#[trigger] s[i]) by {
                if i > 0 {
                    assert(s[i] == s.drop_first()[i - 1]);
                }
            }
        } else if is_upper_char(s[0]) {
            let j = choose|j: int| 0 <= j < s.len() - 1 && !is_upper_char(#[trigger] s.drop_first()[j]);
            assert(s[j + 1] == s.drop_first()[j]);
        }
    }
}

/// Reading the text of a number gives back its letters and digits.
pub proof fn lemma_id_document_text_round_trip(letters: Seq<u8>, digits: Seq<u8>)
    requires
        is_id_document(letters, digits),
    ensures
        id_document_text_is_valid(id_document_text(letters, digits)),
        letter_values(id_document_text(letters, digits).subrange(0, 3)) == letters,
        digit_values(id_document_text(letters, digits).subrange(3, 9)) == digits,
{
    let t = id_document_text(letters, digits);
    lemma_digits_text_values(digits);
    assert(t.subrange(0, 3) =~= letters_text(letters));
    assert(t.subrange(3, 9) =~= digits_text(digits));
    lemma_all_upper_first_non_upper(letters_text(letters));
    assert(letter_values(letters_text(letters)) =~= letters);
}

fn checksum_digit(letters: &[u8; 3], rest_digits: &[u8; 5]) -> (r: u8)
    requires
        all_letters(letters@),
        all_decimal(rest_digits@),
    ensures
        r == id_check_digit(letters@, rest_digits@),
{
    let letter_sum: u32 = (letters[0] as u32 + 10) * 7 + (letters[1] as u32 + 10) * 3 + (
    letters[2] as u32 + 10) * 1;
    let digit_sum: u32 = rest_digits[0] as u32 * 7 + rest_digits[1] as u32 * 3 + rest_digits[2] as u32
        * 1 + rest_digits[3] as u32 * 7 + rest_digits[4] as u32 * 3;
    ((letter_sum + digit_sum) % 10) as u8
}

fn push_letters(s: &mut String, letters: &[u8; 3])
    requires
        all_letters(letters@),
    ensures
        final(s)@ == old(s)@ + letters_text(letters@),
{
    s.push((letters[0] + 65) as char);
    s.push((letters[1] + 65) as char);
    s.push((letters[2] + 65) as char);
    assert(s@ =~= old(s)@ + letters_text(letters@));
}

impl View for IdDocumentNumber {
    type V = (Seq<u8>, Seq<u8>);

    closed spec fn view(&self) -> (Seq<u8>, Seq<u8>) {
        (self.letters@, self.digits@)
    }
}

impl IdDocumentNumber {
    #[verifier::type_invariant]
    spec fn is_valid(self) -> bool {
        is_id_document(self.letters@, self.digits@)
    }

    /// The number of three letter values (A = 0, ..., Z = 25) and five digits, with
    /// the check digit placed before the digits.
    pub fn from_parts(letters: [u8; 3], rest_digits: [u8; 5]) -> (r: Self)
        requires
            all_letters(letters@),
            all_decimal(rest_digits@),
        ensures
            r@.0 == letters@,
            r@.1 == seq![id_check_digit(letters@, rest_digits@) as u8] + rest_digits@,
    {
        let check = checksum_digit(&letters, &rest_digits);
        let digits: [u8; 6] = [
            check,
            rest_digits[0],
            rest_digits[1],
            rest_digits[2],
            rest_digits[3],
            rest_digits[4],
        ];
        assert(digits@ =~= seq![check] + rest_digits@);
        assert(digits@.subrange(1, 6) =~= rest_digits@);
        IdDocumentNumber { letters, digits }
    }

    /// Reads an identity document number: three ASCII capital letters and six decimal
    /// digits, the first of them the check digit.
    pub fn parse(s: &str) -> (r: Result<Self, IdDocumentNumberError>)
        ensures
            match r {
                Ok(n) => id_document_text_is_valid(s@) && n@ == (
                    letter_values(s@.subrange(0, 3)),
                    digit_values(s@.subrange(3, 9)),
                ),
                Err(IdDocumentNumberError::WrongLength { actual }) => s@.len() != 9 && actual
                    == s@.len(),
                Err(IdDocumentNumberError::NonLetterCharacter { character }) => s@.len() == 9
                    && first_non_upper(s@.subrange(0, 3)) == Some(character),
                Err(IdDocumentNumberError::NonDigitCharacter { character }) => s@.len() == 9
                    && first_non_upper(s@.subrange(0, 3)) is None && first_non_digit(
                    s@.subrange(3, 9),
                ) == Some(character),
                Err(IdDocumentNumberError::ChecksumMismatch { expected, actual }) => s@.len()
                    == 9 && first_non_upper(s@.subrange(0, 3)) is None && first_non_digit(
                    s@.subrange(3, 9),
                ) is None && expected == id_check_digit(
                    letter_values(s@.subrange(0, 3)),
                    digit_values(s@.subrange(3, 9)).subrange(1, 6),
                ) && actual == digit_values(s@.subrange(3, 9))[0] && expected != actual,
            },
    {
        let chars = chars_of(s);
        let char_count = chars.len();
        if char_count != 9 {
            return Err(IdDocumentNumberError::WrongLength { actual: char_count });
        }
        let ghost head = s@.subrange(0, 3);
        let mut i: usize = 0;
        assert(head.skip(0) =~= head);
        while i < 3
            invariant
                i <= 3,
                chars@ == s@,
                s@.len() == 9,
                head == s@.subrange(0, 3),
                first_non_upper(head) == first_non_upper(head.skip(i as int)),
                forall|j: int| 0 <= j < i ==> is_upper_char(#[trigger] head[j]),
            decreases 3 - i,
        {
            assert(head.skip(i as int).drop_first() =~= head.skip(i + 1));
            let c = chars[i];
            if !('A' <= c && c <= 'Z') {
                return Err(IdDocumentNumberError::NonLetterCharacter { character: c });
            }
            i = i + 1;
        }
        assert(head.skip(3) =~= Seq::<char>::empty());
        assert(is_upper_char(head[0]) && is_upper_char(head[1]) && is_upper_char(head[2]));
        assert(chars@[0] == head[0] && chars@[1] == head[1] && chars@[2] == head[2]);
        let letters: [u8; 3] = [
            (chars[0] as u32 - 65) as u8,
            (chars[1] as u32 - 65) as u8,
            (chars[2] as u32 - 65) as u8,
        ];
        assert(letters@ =~= letter_values(head));
        let digit_chars = &chars[3..9];
        assert(digit_chars@ =~= s@.subrange(3, 9));
        let digits = match read_digits(digit_chars) {
            Ok(d) => d,
            Err(c) => return Err(IdDocumentNumberError::NonDigitCharacter { character: c }),
        };
        proof {
            lemma_all_digits_first_non_digit(s@.subrange(3, 9));
            assert(all_decimal(digits@));
        }
        let rest: [u8; 5] = [digits[1], digits[2], digits[3], digits[4], digits[5]];
        assert(rest@ =~= digits@.subrange(1, 6));
        let expected = checksum_digit(&letters, &rest);
        if expected != digits[0] {
            return Err(
                IdDocumentNumberError::ChecksumMismatch { expected, actual: digits[0] },
            );
        }
        let all_digits: [u8; 6] = [digits[0], digits[1], digits[2], digits[3], digits[4], digits[5]];
        assert(all_digits@ =~= digits@);
        assert(all_digits@.subrange(1, 6) =~= rest@);
        Ok(IdDocumentNumber { letters, digits: all_digits })
    }

    /// The three capital letters followed by the six digits.
    pub fn as_str(&self) -> (r: String)
        ensures
            r@ == id_document_text(self@.0, self@.1),
            is_id_document(self@.0, self@.1),
    {
        proof {
            use_type_invariant(self);
        }
        let mut s = String::new();
        push_letters(&mut s, &self.letters);
        push_digits(&mut s, &self.digits);
        assert(s@ =~= id_document_text(self@.0, self@.1));
        s
    }

    /// The three capital letters followed by the six digits.
    pub fn to_string(&self) -> (r: String)
        ensures
            r@ == id_document_text(self@.0, self@.1),
            is_id_document(self@.0, self@.1),
    {
        self.as_str()
    }
}

/// A random identity document number: three random letters and five random digits.
pub fn generate_id_document_number(rng: &mut StdRng) -> (r: IdDocumentNumber)
    ensures
        is_id_document(r@.0, r@.1),
{
    let letters: [u8; 3] = [random_u8_in(rng, 0, 25), random_u8_in(rng, 0, 25), random_u8_in(rng, 0, 25)];
    let rest_digits: [u8; 5] = [
        random_u8_in(rng, 0, 9),
        random_u8_in(rng, 0, 9),
        random_u8_in(rng, 0, 9),
        random_u8_in(rng, 0, 9),
        random_u8_in(rng, 0, 9),
    ];
    let r = IdDocumentNumber::from_parts(letters, rest_digits);
    proof {
        use_type_invariant(&r);
    }
    r
}

/// The message of an error.
pub open spec fn id_document_error_text(e: IdDocumentNumberError) -> Seq<char> {
    match e {
        IdDocumentNumberError::WrongLength { actual } => "ID document number must be exactly 9 characters (3 letters + 6 digits), got "@ + decimal_text(actual as nat),
        IdDocumentNumberError::NonLetterCharacter { character } => "the first 3 characters must be uppercase letters A-Z, found '"@ + seq![character] + "'"@,
        IdDocumentNumberError::NonDigitCharacter { character } => "the last 6 characters must be digits, found '"@ + seq![character] + "'"@,
        IdDocumentNumberError::ChecksumMismatch { expected, actual } => "checksum mismatch: expected "@ + decimal_text(expected as nat) + ", got "@ + decimal_text(actual as nat),
    }
}

impl IdDocumentNumberError {
    /// The message of the error.
    pub fn to_string(&self) -> (r: String)
        ensures
            r@ == id_document_error_text(*self),
    {
        let r = match self {
            IdDocumentNumberError::WrongLength { actual } => {
                let mut s = String::new();
                s.append("ID document number must be exactly 9 characters (3 letters + 6 digits), got ");
                push_decimal(&mut s, *actual as u64);
                s
            },
            IdDocumentNumberError::NonLetterCharacter { character } => {
                let mut s = String::new();
                s.append("the first 3 characters must be uppercase letters A-Z, found '");
                s.push(*character);
                s.append("'");
                s
            },
            IdDocumentNumberError::NonDigitCharacter { character } => {
                let mut s = String::new();
                s.append("the last 6 characters must be digits, found '");
                s.push(*character);
                s.append("'");
                s
            },
            IdDocumentNumberError::ChecksumMismatch { expected, actual } => {
                let mut s = String::new();
                s.append("checksum mismatch: expected ");
                push_decimal(&mut s, *expected as u64);
                s.append(", got ");
                push_decimal(&mut s, *actual as u64);
                s
            },
        };
        proof {
            assert(r@ =~= id_document_error_text(*self));
        }
        r
    }
}

} // verus!
