//! Email addresses at the domains reserved for documentation (RFC 2606), with local
//! parts made of lowercase ASCII letters, digits and dots.
use rand::rngs::StdRng;
use vstd::prelude::*;
use vstd::string::*;

use crate::random::{random_i32_in, random_index};
use crate::text::{chars_of, decimal_text, push_decimal};

verus! {

#[derive(Debug, Clone, Copy, PartialEq, Eq, Structural)]
pub enum ReservedDomain {
    ExampleCom,
    ExampleOrg,
    ExampleNet,
}

/// The domain name of a reserved domain.
pub open spec fn domain_text(d: ReservedDomain) -> Seq<char> {
    match d {
        ReservedDomain::ExampleCom => "example.com"@,
        ReservedDomain::ExampleOrg => "example.org"@,
        ReservedDomain::ExampleNet => "example.net"@,
    }
}

impl ReservedDomain {
    /// Every reserved domain.
    pub const ALL: [ReservedDomain; 3] = [
        ReservedDomain::ExampleCom,
        ReservedDomain::ExampleOrg,
        ReservedDomain::ExampleNet,
    ];

    /// The domain name: `example.com`, `example.org` or `example.net`.
    pub fn as_str(&self) -> (r: &'static str)
        ensures
            r@ == domain_text(*self),
    {
        match self {
            ReservedDomain::ExampleCom => "example.com",
            ReservedDomain::ExampleOrg => "example.org",
            ReservedDomain::ExampleNet => "example.net",
        }
    }

    /// The domain name: `example.com`, `example.org` or `example.net`.
    pub fn to_string(&self) -> (r: String)
        ensures
            r@ == domain_text(*self),
    {
        String::from_str(self.as_str())
    }
}

/// The ASCII letter that a Polish letter with a diacritic is written as; any other
/// character stays as it is.
pub open spec fn transliterated(c: char) -> char {
    if c == 'ą' || c == 'Ą' {
        'a'
    } else if c == 'ć' || c == 'Ć' {
        'c'
    } else if c == 'ę' || c == 'Ę' {
        'e'
    } else if c == 'ł' || c == 'Ł' {
        'l'
    } else if c == 'ń' || c == 'Ń' {
        'n'
    } else if c == 'ó' || c == 'Ó' {
        'o'
    } else if c == 'ś' || c == 'Ś' {
        's'
    } else if c == 'ź' || c == 'Ź' || c == 'ż' || c == 'Ż' {
        'z'
    } else {
        c
    }
}

/// An ASCII letter, an ASCII digit or a dot.
pub open spec fn is_kept_char(c: char) -> bool {
    ('a' <= c && c <= 'z') || ('A' <= c && c <= 'Z') || ('0' <= c && c <= '9') || c == '.'
}

/// The lowercase form of an ASCII letter; any other character stays as it is.
pub open spec fn ascii_lower(c: char) -> char {
    if 'A' <= c && c <= 'Z' {
        (c as int + 32) as char
    } else {
        c
    }
}

/// A lowercase ASCII letter, an ASCII digit or a dot.
pub open spec fn is_local_char(c: char) -> bool {
    ('a' <= c && c <= 'z') || ('0' <= c && c <= '9') || c == '.'
}

/// Every character of `s` may stand in a local part.
pub open spec fn is_local_text(s: Seq<char>) -> bool {
    forall|i: int| 0 <= i < s.len() ==> is_local_char(#[trigger] s[i])
}

/// Each character transliterated; then the ASCII letters, digits and dots kept, in
/// lowercase.
pub open spec fn cleaned(s: Seq<char>) -> Seq<char>
    decreases s.len(),
{
    if s.len() == 0 {
        Seq::empty()
    } else {
        let c = transliterated(s.last());
        if is_kept_char(c) {
            cleaned(s.drop_last()).push(ascii_lower(c))
        } else {
            cleaned(s.drop_last())
        }
    }
}

/// The local part made of a text: the cleaned text, or `user` where nothing is left.
pub open spec fn sanitized(s: Seq<char>) -> Seq<char> {
    if cleaned(s).len() == 0 {
        seq!['u', 's', 'e', 'r']
    } else {
        cleaned(s)
    }
}

/// The text of an address.
pub open spec fn email_text(local: Seq<char>, d: ReservedDomain) -> Seq<char> {
    local + seq!['@'] + domain_text(d)
}

/// The Polish letters with a diacritic, lowercase then uppercase.
pub open spec fn polish_diacritic_letters() -> Seq<char> {
    seq!['ą', 'ć', 'ę', 'ł', 'ń', 'ó', 'ś', 'ź', 'ż', 'Ą', 'Ć', 'Ę', 'Ł', 'Ń', 'Ó', 'Ś', 'Ź', 'Ż']
}

/// The base letter of each Polish letter with a diacritic, in the same order.
pub open spec fn polish_base_letters() -> Seq<char> {
    seq!['a', 'c', 'e', 'l', 'n', 'o', 's', 'z', 'z', 'a', 'c', 'e', 'l', 'n', 'o', 's', 'z', 'z']
}

/// A letter of a Polish name: an ASCII letter or a Polish letter with a diacritic.
pub open spec fn is_name_letter(c: char) -> bool {
    ('a' <= c && c <= 'z') || ('A' <= c && c <= 'Z') || polish_diacritic_letters().contains(c)
}

/// Every Polish letter with a diacritic, in either case, is written as its base letter.
pub proof fn lemma_polish_letters_lose_their_diacritics()
    ensures
        forall|k: int|
            0 <= k < 18 ==> #[trigger] transliterated(polish_diacritic_letters()[k])
                == polish_base_letters()[k],
{
}

/// Cleaning a name made of letters keeps every letter, as one lowercase ASCII letter:
/// an ASCII letter in lowercase, a Polish letter with a diacritic as its base letter.
pub proof fn lemma_cleaned_name_keeps_every_letter(s: Seq<char>)
    requires
        forall|i: int| 0 <= i < s.len() ==> is_name_letter(#[trigger] s[i]),
    ensures
        cleaned(s).len() == s.len(),
        forall|i: int|
            0 <= i < s.len() && (('a' <= s[i] && s[i] <= 'z') || ('A' <= s[i] && s[i] <= 'Z'))
                ==> #[trigger] cleaned(s)[i] == ascii_lower(s[i]),
        forall|i: int, k: int|
            0 <= i < s.len() && 0 <= k < 18 && s[i] == polish_diacritic_letters()[k]
                ==> #[trigger] cleaned(s)[i] == #[trigger] polish_base_letters()[k],
    decreases s.len(),
{
    if s.len() > 0 {
        let t = s.drop_last();
        assert forall|i: int| 0 <= i < t.len() implies is_name_letter(#[trigger] t[i]) by {
            assert(t[i] == s[i]);
        }
        lemma_cleaned_name_keeps_every_letter(t);
        lemma_polish_letters_lose_their_diacritics();
        let c = s.last();
        assert(is_name_letter(s[s.len() - 1]));
        let pd = polish_diacritic_letters();
        let pb = polish_base_letters();
        if ('a' <= c && c <= 'z') || ('A' <= c && c <= 'Z') {
            assert(transliterated(c) == c);
        } else {
            let k = choose|k: int| 0 <= k < pd.len() && pd[k] == c;
            assert(transliterated(pd[k]) == pb[k]);
            assert(is_kept_char(pb[k]) && ascii_lower(pb[k]) == pb[k]);
            assert forall|j: int| 0 <= j < 18 && c == pd[j] implies pb[j] == pb[k] by {
                assert(transliterated(pd[j]) == pb[j]);
            }
        }
        assert(is_kept_char(transliterated(c)));
        assert(cleaned(s) == cleaned(t).push(ascii_lower(transliterated(c))));
        assert forall|i: int| 0 <= i < t.len() implies #[trigger] cleaned(s)[i] == cleaned(t)[i]
            && s[i] == t[i] by {}
    }
}

/// A cleaned text is made of local-part characters.
pub proof fn lemma_cleaned_is_local(s: Seq<char>)
    ensures
        is_local_text(cleaned(s)),
        is_local_text(sanitized(s)),
        sanitized(s).len() > 0,
    decreases s.len(),
{
    if s.len() > 0 {
        lemma_cleaned_is_local(s.drop_last());
        let c = transliterated(s.last());
        if is_kept_char(c) {
            let r = cleaned(s.drop_last());
            assert forall|i: int| 0 <= i < r.push(ascii_lower(c)).len() implies is_local_char(
                #[trigger] r.push(ascii_lower(c))[i],
            ) by {
                if i < r.len() {
                    assert(r.push(ascii_lower(c))[i] == r[i]);
                }
            }
        }
    }
    let u = seq!['u', 's', 'e', 'r'];
    assert(is_local_text(u)) by {
        assert forall|i: int| 0 <= i < u.len() implies is_local_char(#[trigger] u[i]) by {}
    }
}

/// Cleaning a text piece by piece gives the same as cleaning it whole.
pub proof fn lemma_cleaned_concat(a: Seq<char>, b: Seq<char>)
    ensures
        cleaned(a + b) == cleaned(a) + cleaned(b),
    decreases b.len(),
{
    if b.len() == 0 {
        assert(a + b =~= a);
        assert(cleaned(a) + cleaned(b) =~= cleaned(a));
    } else {
        assert((a + b).drop_last() =~= a + b.drop_last());
        lemma_cleaned_concat(a, b.drop_last());
        let c = transliterated(b.last());
        if is_kept_char(c) {
            assert(cleaned(a) + cleaned(b.drop_last()).push(ascii_lower(c)) =~= (cleaned(a)
                + cleaned(b.drop_last())).push(ascii_lower(c)));
        }
    }
}

/// Cleaning leaves a local part as it is: sanitizing is idempotent.
pub proof fn lemma_cleaned_local_text(s: Seq<char>)
    requires
        is_local_text(s),
    ensures
        cleaned(s) == s,
    decreases s.len(),
{
    if s.len() > 0 {
        assert(is_local_text(s.drop_last())) by {
            assert forall|i: int| 0 <= i < s.drop_last().len() implies is_local_char(
                #[trigger] s.drop_last()[i],
            ) by {
                assert(s.drop_last()[i] == s[i]);
            }
        }
        lemma_cleaned_local_text(s.drop_last());
        assert(is_local_char(s[s.len() - 1]));
        assert(s.drop_last().push(s.last()) =~= s);
    }
}

/// Building an address from the local part of an address gives the same local part:
/// sanitizing is idempotent.
pub proof fn lemma_sanitized_idempotent(s: Seq<char>)
    ensures
        sanitized(sanitized(s)) == sanitized(s),
{
    lemma_cleaned_is_local(s);
    lemma_cleaned_local_text(sanitized(s));
}

/// The decimal text of a number is made of local-part characters.
pub proof fn lemma_decimal_text_is_local(n: nat)
    ensures
        is_local_text(decimal_text(n)),
    decreases n,
{
    if n >= 10 {
        lemma_decimal_text_is_local(n / 10);
        let t = decimal_text(n / 10);
        assert forall|i: int| 0 <= i < decimal_text(n).len() implies is_local_char(
            #[trigger] decimal_text(n)[i],
        ) by {
            if i < t.len() {
                assert(decimal_text(n)[i] == t[i]);
            }
        }
    }
}

/// The ASCII letter that a Polish letter with a diacritic is written as.
fn transliterate_polish_char(c: char) -> (r: char)
    ensures
        r == transliterated(c),
{
    match c {
        'ą' | 'Ą' => 'a',
        'ć' | 'Ć' => 'c',
        'ę' | 'Ę' => 'e',
        'ł' | 'Ł' => 'l',
        'ń' | 'Ń' => 'n',
        'ó' | 'Ó' => 'o',
        'ś' | 'Ś' => 's',
        'ź' | 'Ź' => 'z',
        'ż' | 'Ż' => 'z',
        other => other,
    }
}

fn sanitize_local_part(raw: &str) -> (r: String)
    ensures
        r@ == sanitized(raw@),
{
    let chars = chars_of(raw);
    let n = chars.len();
    let mut cleaned_text = String::new();
    let mut kept: usize = 0;
    let mut i: usize = 0;
    while i < n
        invariant
            n == raw@.len(),
            chars@ == raw@,
            i <= n,
            cleaned_text@ == cleaned(raw@.take(i as int)),
            kept == cleaned_text@.len(),
            kept <= i,
        decreases n - i,
    {
        assert(raw@.take(i + 1).drop_last() =~= raw@.take(i as int));
        let c = transliterate_polish_char(chars[i]);
        if ('a' <= c && c <= 'z') || ('A' <= c && c <= 'Z') || ('0' <= c && c <= '9') || c == '.' {
            let lower = if 'A' <= c && c <= 'Z' {
                (c as u8 + 32) as char
            } else {
                c
            };
            cleaned_text.push(lower);
            kept = kept + 1;
        }
        i = i + 1;
    }
    assert(raw@.take(n as int) =~= raw@);
    if kept == 0 {
        proof {
            reveal_strlit("user");
        }
        String::from_str("user")
    } else {
        cleaned_text
    }
}

fn ascii_slug(s: &str) -> (r: String)
    ensures
        r@ == sanitized(s@),
{
    sanitize_local_part(s)
}

/// An email address at a reserved domain.
#[derive(Debug, PartialEq, Eq)]
pub struct EmailAddress {
    local_part: String,
    domain: ReservedDomain,
}

impl View for EmailAddress {
    type V = (Seq<char>, ReservedDomain);

    closed spec fn view(&self) -> (Seq<char>, ReservedDomain) {
        (self.local_part@, self.domain)
    }
}

impl Clone for EmailAddress {
    fn clone(&self) -> (r: Self)
        ensures
            r@ == self@,
    {
        proof {
            use_type_invariant(self);
        }
        EmailAddress { local_part: self.local_part.clone(), domain: self.domain }
    }
}

impl EmailAddress {
    #[verifier::type_invariant]
    spec fn is_valid(self) -> bool {
        self.local_part@.len() > 0 && is_local_text(self.local_part@)
    }

    /// The address with the sanitized local part at the domain.
    pub fn new(local_part: &str, domain: ReservedDomain) -> (r: Self)
        ensures
            r@ == (sanitized(local_part@), domain),
            r@.0.len() > 0,
            is_local_text(r@.0),
    {
        let local = sanitize_local_part(local_part);
        proof {
            lemma_cleaned_is_local(local_part@);
        }
        EmailAddress { local_part: local, domain }
    }

    /// The address as `local@domain`.
    pub fn as_str(&self) -> (r: String)
        ensures
            r@ == email_text(self@.0, self@.1),
            self@.0.len() > 0,
            is_local_text(self@.0),
    {
        proof {
            use_type_invariant(self);
        }
        let mut s = self.local_part.clone();
        s.push('@');
        s.append(self.domain.as_str());
        s
    }

    /// The address as `local@domain`.
    pub fn to_string(&self) -> (r: String)
        ensures
            r@ == email_text(self@.0, self@.1),
            self@.0.len() > 0,
            is_local_text(self@.0),
    {
        self.as_str()
    }
}

/// A random address for a person: `first.last` (each sanitized) followed by a random
/// number from 10 to 999, at a random reserved domain.
pub fn generate_email(rng: &mut StdRng, first_name: &str, last_name: &str) -> (r: EmailAddress)
    ensures
        exists|n: int|
            10 <= n <= 999 && r@.0 == sanitized(first_name@) + seq!['.'] + sanitized(last_name@)
                + #[trigger] decimal_text(n as nat),
{
    let disambiguator = random_i32_in(rng, 10, 999);
    let mut local = ascii_slug(first_name);
    local.push('.');
    let last = ascii_slug(last_name);
    local.append(last.as_str());
    push_decimal(&mut local, disambiguator as u64);
    let domain = ReservedDomain::ALL[random_index(rng, 3)];
    let email = EmailAddress::new(local.as_str(), domain);
    proof {
        let a = sanitized(first_name@);
        let b = sanitized(last_name@);
        let d = decimal_text(disambiguator as nat);
        lemma_cleaned_is_local(first_name@);
        lemma_cleaned_is_local(last_name@);
        lemma_decimal_text_is_local(disambiguator as nat);
        let dot = seq!['.'];
        assert(is_local_text(dot)) by {
            assert forall|i: int| 0 <= i < dot.len() implies is_local_char(#[trigger] dot[i]) by {}
        }
        let t = a + dot + b + d;
        assert(local@ =~= t);
        assert(is_local_text(t)) by {
            assert forall|i: int| 0 <= i < t.len() implies is_local_char(#[trigger] t[i]) by {
                if i < a.len() {
                    assert(t[i] == a[i]);
                } else if i < a.len() + 1 {
                    assert(t[i] == dot[i - a.len()]);
                } else if i < a.len() + 1 + b.len() {
                    assert(t[i] == b[i - a.len() - 1]);
                } else {
                    assert(t[i] == d[i - a.len() - 1 - b.len()]);
                }
            }
        }
        lemma_cleaned_local_text(t);
        assert(cleaned(t).len() > 0);
    }
    email
}

} // verus!
