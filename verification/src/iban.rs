//! Polish IBAN account numbers: `PL`, two check digits, an eight-digit bank branch
//! number and a sixteen-digit account number, checked modulo 97 (ISO 13616).
use rand::rngs::StdRng;
use vstd::prelude::*;

use crate::random::random_u8_in;
use crate::text::{
    all_decimal, chars_of, digit_values, digits_text, first_non_digit,
    lemma_all_digits_first_non_digit, lemma_digits_text_values, push_digits, read_digits,
};

use crate::text::{decimal_text, push_decimal, push_zero_padded, zero_padded};

verus! {

/// A valid Polish IBAN.
#[derive(Debug, Clone, Copy, PartialEq, Eq)]
pub struct Iban {
    check_digits: [u8; 2],
    bank_branch: [u8; 8],
    account: [u8; 16],
}

/// Why a text does not make a Polish IBAN.
#[derive(Debug, Clone, PartialEq, Eq)]
pub enum IbanError {
    WrongLength { actual: usize },
    MissingCountryCode { found: String },
    NonDigitCharacter { character: char },
    ChecksumMismatch { expected: [u8; 2], actual: [u8; 2] },
}

/// The remainder modulo 97 of the number that a digit sequence writes, computed one
/// digit at a time from the left.
pub open spec fn mod97(d: Seq<u8>) -> int
    decreases d.len(),
{
    if d.len() == 0 {
        0
    } else {
        (mod97(d.drop_last()) * 10 + d.last()) % 97
    }
}

/// The number that a sequence of digits writes in decimal.
pub open spec fn digits_number(d: Seq<u8>) -> int
    decreases d.len(),
{
    if d.len() == 0 {
        0
    } else {
        digits_number(d.drop_last()) * 10 + d.last()
    }
}

/// The digits that the country code `PL` stands for (A = 10, ..., Z = 35).
pub open spec fn pl_country_digits() -> Seq<u8> {
    seq![2u8, 5u8, 2u8, 1u8]
}

/// The two check digits of a basic bank account number (bank branch and account):
/// 98 minus the remainder modulo 97 of the number followed by the country digits and `00`.
pub open spec fn iban_check_digits(bban: Seq<u8>) -> Seq<u8> {
    let check = 98 - mod97(bban + pl_country_digits() + seq![0u8, 0u8]);
    seq![(check / 10) as u8, (check % 10) as u8]
}

/// The 26 digits of a valid Polish IBAN: check digits, bank branch, account.
pub open spec fn is_iban_digits(d: Seq<u8>) -> bool {
    &&& d.len() == 26
    &&& all_decimal(d)
    &&& d.subrange(0, 2) == iban_check_digits(d.subrange(2, 26))
}

/// The text of a valid Polish IBAN.
pub open spec fn iban_text_is_valid(s: Seq<char>) -> bool {
    &&& s.len() == 28
    &&& s.subrange(0, 2) == seq!['P', 'L']
    &&& first_non_digit(s.subrange(2, 28)) is None
    &&& is_iban_digits(digit_values(s.subrange(2, 28)))
}

/// The text of an IBAN with the given digits.
pub open spec fn iban_text(d: Seq<u8>) -> Seq<char> {
    seq!['P', 'L'] + digits_text(d)
}

proof fn lemma_all_decimal_concat(a: Seq<u8>, b: Seq<u8>)
    ensures
        all_decimal(a + b) <==> all_decimal(a) && all_decimal(b),
{
    if all_decimal(a + b) {
        assert forall|i: int| 0 <= i < a.len() implies #[trigger] a[i] <= 9 by {
            assert(a[i] == (a + b)[i]);
        }
        assert forall|i: int| 0 <= i < b.len() implies #[trigger] b[i] <= 9 by {
            assert(b[i] == (a + b)[a.len() + i]);
        }
    }
}

proof fn lemma_mod97_push(d: Seq<u8>, x: u8)
    ensures
        mod97(d.push(x)) == (mod97(d) * 10 + x) % 97,
{
    assert(d.push(x).drop_last() =~= d);
}

/// Folding the digits modulo 97 gives the remainder of the number they write.
pub proof fn lemma_mod97_is_remainder(d: Seq<u8>)
    ensures
        mod97(d) == digits_number(d) % 97,
    decreases d.len(),
{
    if d.len() > 0 {
        lemma_mod97_is_remainder(d.drop_last());
        let a = digits_number(d.drop_last());
        let x = d.last() as int;
        assert((a % 97 * 10 + x) % 97 == (a * 10 + x) % 97) by {
            vstd::arithmetic::div_mod::lemma_fundamental_div_mod(a, 97);
            vstd::arithmetic::div_mod::lemma_mod_multiples_vanish(10 * (a / 97), a % 97 * 10 + x, 97);
        }
    }
}

/// Every IBAN with computed check digits passes the ISO 13616 test: the basic bank
/// account number, followed by the country digits and the check digits, leaves
/// remainder 1 modulo 97.
pub proof fn lemma_iban_passes_mod97(bban: Seq<u8>)
    ensures
        mod97(bban + pl_country_digits() + iban_check_digits(bban)) == 1,
{
    let n = bban + pl_country_digits();
    let r = mod97(n);
    let c = iban_check_digits(bban);
    assert(n + seq![0u8, 0u8] =~= n.push(0).push(0));
    lemma_mod97_push(n, 0);
    lemma_mod97_push(n.push(0), 0);
    let r00 = mod97(n + seq![0u8, 0u8]);
    assert(0 <= r < 97);
    assert(0 <= r00 < 97);
    let check = 98 - r00;
    assert(c[0] == check / 10 && c[1] == check % 10);
    assert(n + c =~= n.push(c[0]).push(c[1]));
    lemma_mod97_push(n, c[0]);
    lemma_mod97_push(n.push(c[0]), c[1]);
    assert(r00 == (r * 100) % 97) by {
        assert(((r * 10) % 97 * 10) % 97 == (r * 100) % 97) by {
            vstd::arithmetic::div_mod::lemma_fundamental_div_mod(r * 10, 97);
            vstd::arithmetic::div_mod::lemma_mod_multiples_vanish(10 * ((r * 10) / 97), (r * 10) % 97 * 10, 97);
        }
    }
    assert(((r * 10 + c[0]) % 97 * 10 + c[1]) % 97 == (r * 100 + check) % 97) by {
        let a = r * 10 + c[0];
        vstd::arithmetic::div_mod::lemma_fundamental_div_mod(a, 97);
        vstd::arithmetic::div_mod::lemma_mod_multiples_vanish(10 * (a / 97), a % 97 * 10 + c[1], 97);
    }
    assert((r * 100 + check) % 97 == 1) by {
        vstd::arithmetic::div_mod::lemma_fundamental_div_mod(r * 100, 97);
        vstd::arithmetic::div_mod::lemma_mod_multiples_vanish((r * 100) / 97, 98, 97);
    }
}

/// The check digits of a basic bank account number write a number from 2 to 98, and
/// the number written by the account number, the digits 2521 of `PL` (P = 25, L = 21)
/// and the check digits is congruent to 1 modulo 97.
pub proof fn lemma_iban_number_is_one_mod_97(bban: Seq<u8>)
    ensures
        all_decimal(iban_check_digits(bban)),
        2 <= digits_number(iban_check_digits(bban)) <= 98,
        digits_number(bban + seq![2u8, 5u8, 2u8, 1u8] + iban_check_digits(bban)) % 97 == 1,
{
    assert(pl_country_digits() =~= seq![2u8, 5u8, 2u8, 1u8]);
    let cc = iban_check_digits(bban);
    let n = bban + pl_country_digits() + seq![0u8, 0u8];
    assert(n.len() > 0);
    let r00 = mod97(n);
    assert(0 <= r00 < 97);
    let check = 98 - r00;
    assert(2 <= check <= 98);
    assert(cc[0] == check / 10 && cc[1] == check % 10);
    assert(cc.drop_last() =~= seq![cc[0]]);
    let one = seq![cc[0]];
    assert(one.len() == 1 && one.last() == cc[0]);
    assert(one.drop_last() =~= Seq::<u8>::empty());
    assert(digits_number(one.drop_last()) == 0);
    assert(digits_number(one) == cc[0]);
    assert(digits_number(cc) == cc[0] * 10 + cc[1]);
    lemma_iban_passes_mod97(bban);
    lemma_mod97_is_remainder(bban + pl_country_digits() + cc);
}

/// Reading the text of an IBAN gives back its digits.
pub proof fn lemma_iban_text_round_trip(d: Seq<u8>)
    requires
        is_iban_digits(d),
    ensures
        iban_text_is_valid(iban_text(d)),
        digit_values(iban_text(d).subrange(2, 28)) == d,
{
    lemma_digits_text_values(d);
    assert(iban_text(d).subrange(2, 28) =~= digits_text(d));
    assert(iban_text(d).subrange(0, 2) =~= seq!['P', 'L']);
}

/// The remainder modulo 97 of the number that the digits write.
pub fn mod97_fold(digits: &[u8]) -> (r: u32)
    requires
        all_decimal(digits@),
    ensures
        r == mod97(digits@),
        r < 97,
{
    let n = digits.len();
    let mut rem: u32 = 0;
    let mut i: usize = 0;
    while i < n
        invariant
            n == digits@.len(),
            i <= n,
            all_decimal(digits@),
            rem == mod97(digits@.take(i as int)),
            rem < 97,
        decreases n - i,
    {
        assert(digits@.take(i + 1).drop_last() =~= digits@.take(i as int));
        assert(digits@[i as int] <= 9);
        rem = (rem * 10 + digits[i] as u32) % 97;
        i = i + 1;
    }
    assert(digits@.take(n as int) =~= digits@);
    rem
}

/// The two digits of a capital letter's value (A = 10, ..., Z = 35).
fn letter_digits(c: char) -> (r: [u8; 2])
    requires
        'A' <= c <= 'Z',
    ensures
        r@ == seq![
            ((c as int - 'A' as int + 10) / 10) as u8,
            ((c as int - 'A' as int + 10) % 10) as u8,
        ],
{
    let value = c as u8 - 65 + 10;
    let r = [value / 10, value % 10];
    assert(r@ =~= seq![
        ((c as int - 'A' as int + 10) / 10) as u8,
        ((c as int - 'A' as int + 10) % 10) as u8,
    ]);
    r
}

fn compute_check_digits(bank_branch: &[u8; 8], account: &[u8; 16]) -> (r: [u8; 2])
    requires
        all_decimal(bank_branch@),
        all_decimal(account@),
    ensures
        r@ == iban_check_digits(bank_branch@ + account@),
        all_decimal(r@),
{
    let mut rearranged: Vec<u8> = Vec::new();
    let mut i: usize = 0;
    while i < 8
        invariant
            i <= 8,
            rearranged@ == bank_branch@.take(i as int),
        decreases 8 - i,
    {
        rearranged.push(bank_branch[i]);
        i = i + 1;
        assert(rearranged@ =~= bank_branch@.take(i as int));
    }
    let mut j: usize = 0;
    while j < 16
        invariant
            j <= 16,
            rearranged@ == bank_branch@ + account@.take(j as int),
        decreases 16 - j,
    {
        rearranged.push(account[j]);
        j = j + 1;
        assert(rearranged@ =~= bank_branch@ + account@.take(j as int));
    }
    let p = letter_digits('P');
    let l = letter_digits('L');
    rearranged.push(p[0]);
    rearranged.push(p[1]);
    rearranged.push(l[0]);
    rearranged.push(l[1]);
    rearranged.push(0);
    rearranged.push(0);
    assert(rearranged@ =~= bank_branch@ + account@ + pl_country_digits() + seq![0u8, 0u8]);
    let remainder = mod97_fold(rearranged.as_slice());
    let check = 98 - remainder;
    let r = [(check / 10) as u8, (check % 10) as u8];
    assert(r@ =~= iban_check_digits(bank_branch@ + account@));
    r
}

impl View for Iban {
    type V = Seq<u8>;

    closed spec fn view(&self) -> Seq<u8> {
        self.check_digits@ + self.bank_branch@ + self.account@
    }
}

impl Iban {
    #[verifier::type_invariant]
    spec fn is_valid(self) -> bool {
        is_iban_digits(self.check_digits@ + self.bank_branch@ + self.account@)
    }

    /// The IBAN of a bank branch number and an account number, with their check digits.
    pub fn from_parts(bank_branch: [u8; 8], account: [u8; 16]) -> (r: Self)
        requires
            all_decimal(bank_branch@),
            all_decimal(account@),
        ensures
            r@ == iban_check_digits(bank_branch@ + account@) + bank_branch@ + account@,
            is_iban_digits(r@),
    {
        let check_digits = compute_check_digits(&bank_branch, &account);
        proof {
            let d = check_digits@ + bank_branch@ + account@;
            assert(d.subrange(0, 2) =~= check_digits@);
            assert(d.subrange(2, 26) =~= bank_branch@ + account@);
            lemma_all_decimal_concat(check_digits@, bank_branch@);
            lemma_all_decimal_concat(check_digits@ + bank_branch@, account@);
        }
        Iban { check_digits, bank_branch, account }
    }

    /// Reads a Polish IBAN: `PL` and 26 decimal digits whose first two are the check
    /// digits of the rest.
    pub fn parse(s: &str) -> (r: Result<Self, IbanError>)
        ensures
            match r {
                Ok(i) => iban_text_is_valid(s@) && i@ == digit_values(s@.subrange(2, 28)),
                Err(IbanError::WrongLength { actual }) => s@.len() != 28 && actual == s@.len(),
                Err(IbanError::MissingCountryCode { found }) => s@.len() == 28
                    && s@.subrange(0, 2) != seq!['P', 'L'] && found@ == s@.subrange(0, 2),
                Err(IbanError::NonDigitCharacter { character }) => s@.len() == 28
                    && s@.subrange(0, 2) == seq!['P', 'L'] && first_non_digit(s@.subrange(2, 28))
                    == Some(character),
                Err(IbanError::ChecksumMismatch { expected, actual }) => s@.len() == 28
                    && s@.subrange(0, 2) == seq!['P', 'L'] && first_non_digit(s@.subrange(2, 28))
                    is None && expected@ == iban_check_digits(
                    digit_values(s@.subrange(2, 28)).subrange(2, 26),
                ) && actual@ == digit_values(s@.subrange(2, 28)).subrange(0, 2) && expected@
                    != actual@,
            },
    {
        let chars = chars_of(s);
        let char_count = chars.len();
        if char_count != 28 {
            return Err(IbanError::WrongLength { actual: char_count });
        }
        if chars[0] != 'P' || chars[1] != 'L' {
            let mut found = String::new();
            found.push(chars[0]);
            found.push(chars[1]);
            assert(found@ =~= s@.subrange(0, 2));
            return Err(IbanError::MissingCountryCode { found });
        }
        assert(s@.subrange(0, 2) =~= seq!['P', 'L']);
        let digit_chars = &chars[2..28];
        assert(digit_chars@ =~= s@.subrange(2, 28));
        let digits = match read_digits(digit_chars) {
            Ok(d) => d,
            Err(c) => return Err(IbanError::NonDigitCharacter { character: c }),
        };
        proof {
            lemma_all_digits_first_non_digit(s@.subrange(2, 28));
            assert(all_decimal(digits@));
        }
        let check_digits: [u8; 2] = [digits[0], digits[1]];
        let bank_branch: [u8; 8] = [
            digits[2],
            digits[3],
            digits[4],
            digits[5],
            digits[6],
            digits[7],
            digits[8],
            digits[9],
        ];
        let account: [u8; 16] = [
            digits[10],
            digits[11],
            digits[12],
            digits[13],
            digits[14],
            digits[15],
            digits[16],
            digits[17],
            digits[18],
            digits[19],
            digits[20],
            digits[21],
            digits[22],
            digits[23],
            digits[24],
            digits[25],
        ];
        assert(check_digits@ =~= digits@.subrange(0, 2));
        assert(bank_branch@ + account@ =~= digits@.subrange(2, 26));
        assert(all_decimal(bank_branch@));
        assert(all_decimal(account@));
        let expected = compute_check_digits(&bank_branch, &account);
        if expected[0] != check_digits[0] || expected[1] != check_digits[1] {
            proof {
                if expected@ == check_digits@ {
                    assert(expected@[0] == check_digits@[0]);
                    assert(expected@[1] == check_digits@[1]);
                }
            }
            return Err(IbanError::ChecksumMismatch { expected, actual: check_digits });
        }
        assert(expected@ =~= check_digits@);
        assert(check_digits@ + bank_branch@ + account@ =~= digits@);
        let r = Iban { check_digits, bank_branch, account };
        Ok(r)
    }

    /// The text `PL` followed by the 26 digits.
    pub fn as_str(&self) -> (r: String)
        ensures
            r@ == iban_text(self@),
            is_iban_digits(self@),
    {
        proof {
            use_type_invariant(self);
            lemma_all_decimal_concat(self.check_digits@ + self.bank_branch@, self.account@);
            lemma_all_decimal_concat(self.check_digits@, self.bank_branch@);
        }
        let mut s = String::new();
        s.push('P');
        s.push('L');
        push_digits(&mut s, &self.check_digits);
        push_digits(&mut s, &self.bank_branch);
        push_digits(&mut s, &self.account);
        assert(s@ =~= iban_text(self@));
        s
    }

    /// The text `PL` followed by the 26 digits.
    pub fn to_string(&self) -> (r: String)
        ensures
            r@ == iban_text(self@),
            is_iban_digits(self@),
    {
        self.as_str()
    }
}

/// A random IBAN: eight random bank branch digits, sixteen random account digits and
/// their check digits.
pub fn generate_iban(rng: &mut StdRng) -> (r: Iban)
    ensures
        is_iban_digits(r@),
{
    let mut bank_branch: [u8; 8] = [0; 8];
    let mut i: usize = 0;
    while i < 8
        invariant
            i <= 8,
            all_decimal(bank_branch@),
        decreases 8 - i,
    {
        bank_branch[i] = random_u8_in(rng, 0, 9);
        i = i + 1;
    }
    let mut account: [u8; 16] = [0; 16];
    let mut j: usize = 0;
    while j < 16
        invariant
            j <= 16,
            all_decimal(bank_branch@),
            all_decimal(account@),
        decreases 16 - j,
    {
        account[j] = random_u8_in(rng, 0, 9);
        j = j + 1;
    }
    Iban::from_parts(bank_branch, account)
}

/// The message of an error.
pub open spec fn iban_error_text(e: IbanError) -> Seq<char> {
    match e {
        IbanError::WrongLength { actual } => "Polish IBAN must be exactly 28 characters (PL + 26 digits), got "@ + decimal_text(actual as nat),
        IbanError::MissingCountryCode { found } => "IBAN must start with country code 'PL', found '"@ + found@ + "'"@,
        IbanError::NonDigitCharacter { character } => "IBAN digit section must contain only digits, found '"@ + seq![character] + "'"@,
        IbanError::ChecksumMismatch { expected, actual } => "checksum mismatch: expected "@ + zero_padded((expected@[0] * 10 + expected@[1]) as nat, 2) + ", got "@ + zero_padded((actual@[0] * 10 + actual@[1]) as nat, 2),
    }
}

impl IbanError {
    /// The message of the error.
    pub fn to_string(&self) -> (r: String)
        ensures
            r@ == iban_error_text(*self),
    {
        let r = match self {
            IbanError::WrongLength { actual } => {
                let mut s = String::new();
                s.append("Polish IBAN must be exactly 28 characters (PL + 26 digits), got ");
                push_decimal(&mut s, *actual as u64);
                s
            },
            IbanError::MissingCountryCode { found } => {
                let mut s = String::new();
                s.append("IBAN must start with country code 'PL', found '");
                s.append(found.as_str());
                s.append("'");
                s
            },
            IbanError::NonDigitCharacter { character } => {
                let mut s = String::new();
                s.append("IBAN digit section must contain only digits, found '");
                s.push(*character);
                s.append("'");
                s
            },
            IbanError::ChecksumMismatch { expected, actual } => {
                let mut s = String::new();
                s.append("checksum mismatch: expected ");
                push_zero_padded(&mut s, expected[0] as u64 * 10 + expected[1] as u64, 2);
                s.append(", got ");
                push_zero_padded(&mut s, actual[0] as u64 * 10 + actual[1] as u64, 2);
                s
            },
        };
        proof {
            assert(r@ =~= iban_error_text(*self));
        }
        r
    }
}

} // verus!
