//! Characters, decimal digits and the text forms that every identifier
//! of this crate is built from.
use vstd::prelude::*;
use vstd::string::*;

verus! {

/// `c` is one of the ASCII decimal digits `'0'..='9'`.
pub open spec fn is_digit_char(c: char) -> bool {
    '0' <= c && c <= '9'
}

/// The value of the decimal digit `c`.
pub open spec fn digit_value(c: char) -> int {
    c as int - '0' as int
}

/// The ASCII character of the decimal digit `d` (for `0 <= d <= 9`).
pub open spec fn digit_char(d: int) -> char {
    (d + '0' as int) as char
}

/// The digits of a sequence of digit characters, as numbers.
pub open spec fn digit_values(s: Seq<char>) -> Seq<u8> {
    s.map_values(|c: char| digit_value(c) as u8)
}

/// The text of a sequence of decimal digits.
pub open spec fn digits_text(d: Seq<u8>) -> Seq<char> {
    d.map_values(|x: u8| digit_char(x as int))
}

/// Every element of `d` is a decimal digit.
pub open spec fn all_decimal(d: Seq<u8>) -> bool {
    forall|i: int| 0 <= i < d.len() ==> #[trigger] d[i] <= 9
}

/// Every character of `s` is a decimal digit character.
pub open spec fn all_digit_chars(s: Seq<char>) -> bool {
    forall|i: int| 0 <= i < s.len() ==> is_digit_char(#[trigger] s[i])
}

/// The first character of `s` that is not a decimal digit, if any.
pub open spec fn first_non_digit(s: Seq<char>) -> Option<char>
    decreases s.len(),
{
    if s.len() == 0 {
        None
    } else if !is_digit_char(s[0]) {
        Some(s[0])
    } else {
        first_non_digit(s.drop_first())
    }
}

/// The decimal text of `n`, without leading zeros.
pub open spec fn decimal_text(n: nat) -> Seq<char>
    decreases n,
{
    if n < 10 {
        seq![digit_char(n as int)]
    } else {
        decimal_text(n / 10).push(digit_char((n % 10) as int))
    }
}

/// `n` zero characters.
pub open spec fn zeros(n: nat) -> Seq<char> {
    Seq::new(n, |i: int| '0')
}

/// The decimal text of `n`, padded on the left with zeros to at least `width` characters.
pub open spec fn zero_padded(n: nat, width: nat) -> Seq<char> {
    let t = decimal_text(n);
    if t.len() < width {
        zeros((width - t.len()) as nat) + t
    } else {
        t
    }
}

/// The value of a sequence of decimal digit characters (0 for the empty sequence).
pub open spec fn decimal_value(s: Seq<char>) -> nat
    decreases s.len(),
{
    if s.len() == 0 {
        0
    } else {
        (decimal_value(s.drop_last()) * 10 + digit_value(s.last())) as nat
    }
}

/// What `str::parse` gives for an unsigned integer type whose largest value is `max`:
/// an optional `'+'`, then one or more decimal digits, of a value up to `max`.
pub open spec fn parse_unsigned(s: Seq<char>, max: nat) -> Option<nat> {
    let body = if s.len() > 0 && s[0] == '+' {
        s.drop_first()
    } else {
        s
    };
    if body.len() == 0 || !all_digit_chars(body) || decimal_value(body) > max {
        None
    } else {
        Some(decimal_value(body))
    }
}

/// Reading back the text of a digit sequence gives the digits.
pub proof fn lemma_digits_text_values(d: Seq<u8>)
    requires
        all_decimal(d),
    ensures
        digits_text(d).len() == d.len(),
        all_digit_chars(digits_text(d)),
        first_non_digit(digits_text(d)) is None,
        digit_values(digits_text(d)) == d,
{
    assert(digit_values(digits_text(d)) =~= d);
    lemma_all_digits_first_non_digit(digits_text(d));
}

pub proof fn lemma_all_digits_first_non_digit(s: Seq<char>)
    ensures
        all_digit_chars(s) <==> first_non_digit(s) is None,
    decreases s.len(),
{
    if s.len() > 0 {
        lemma_all_digits_first_non_digit(s.drop_first());
        if !is_digit_char(s[0]) {
            assert(!all_digit_chars(s));
        } else if all_digit_chars(s.drop_first()) {
            assert forall|i: int| 0 <= i < s.len() implies is_digit_char(#[trigger] s[i]) by {
                if i > 0 {
                    assert(s[i] == s.drop_first()[i - 1]);
                }
            }
        } else {
            let j = choose|j: int| 0 <= j < s.len() - 1 && !is_digit_char(#[trigger] s.drop_first()[j]);
            assert(s[j + 1] == s.drop_first()[j]);
        }
    }
}

/// The first non-digit of `a + b` is that of `a`, or, where `a` is all digits, that of `b`.
pub proof fn lemma_first_non_digit_concat(a: Seq<char>, b: Seq<char>)
    ensures
        first_non_digit(a + b) == (if first_non_digit(a) is Some {
            first_non_digit(a)
        } else {
            first_non_digit(b)
        }),
    decreases a.len(),
{
    if a.len() > 0 {
        assert((a + b).drop_first() =~= a.drop_first() + b);
        lemma_first_non_digit_concat(a.drop_first(), b);
    } else {
        assert(a + b =~= b);
    }
}

/// Converts a decimal digit character, as `char::to_digit(10)` does.
pub fn to_digit10(c: char) -> (r: Option<u8>)
    ensures
        match r {
            Some(d) => is_digit_char(c) && d as int == digit_value(c),
            None => !is_digit_char(c),
        },
{
    if '0' <= c && c <= '9' {
        Some((c as u32 - '0' as u32) as u8)
    } else {
        None
    }
}

/// The ASCII character of a decimal digit.
pub fn char_of_digit(d: u8) -> (c: char)
    requires
        d <= 9,
    ensures
        c == digit_char(d as int),
{
    (d + 48) as char
}

/// The characters of `s`, in order.
pub fn chars_of(s: &str) -> (v: Vec<char>)
    ensures
        v@ == s@,
{
    let n = s.unicode_len();
    let mut v: Vec<char> = Vec::new();
    let mut i: usize = 0;
    while i < n
        invariant
            n == s@.len(),
            i <= n,
            v@ == s@.take(i as int),
        decreases n - i,
    {
        let c = s.get_char(i);
        v.push(c);
        i = i + 1;
        assert(v@ =~= s@.take(i as int));
    }
    assert(s@.take(n as int) =~= s@);
    v
}

/// Reads a sequence of decimal digit characters: the digits, or the first character
/// that is not one.
pub fn read_digits(chars: &[char]) -> (r: Result<Vec<u8>, char>)
    ensures
        match r {
            Ok(d) => first_non_digit(chars@) is None && d@ == digit_values(chars@),
            Err(c) => first_non_digit(chars@) == Some(c),
        },
{
    let n = chars.len();
    let mut digits: Vec<u8> = Vec::new();
    let mut i: usize = 0;
    assert(chars@.skip(0) =~= chars@);
    while i < n
        invariant
            n == chars@.len(),
            i <= n,
            digits@ == digit_values(chars@.take(i as int)),
            first_non_digit(chars@) == first_non_digit(chars@.skip(i as int)),
        decreases n - i,
    {
        assert(chars@.skip(i as int).drop_first() =~= chars@.skip(i + 1));
        match to_digit10(chars[i]) {
            Some(d) => {
                digits.push(d);
                i = i + 1;
                assert(digits@ =~= digit_values(chars@.take(i as int)));
            },
            None => {
                return Err(chars[i]);
            },
        }
    }
    assert(chars@.take(n as int) =~= chars@);
    Ok(digits)
}

/// Appends the text of a sequence of decimal digits.
pub fn push_digits(s: &mut String, digits: &[u8])
    requires
        all_decimal(digits@),
    ensures
        final(s)@ == old(s)@ + digits_text(digits@),
{
    let n = digits.len();
    let mut i: usize = 0;
    while i < n
        invariant
            n == digits@.len(),
            i <= n,
            all_decimal(digits@),
            s@ == old(s)@ + digits_text(digits@.take(i as int)),
        decreases n - i,
    {
        s.push(char_of_digit(digits[i]));
        i = i + 1;
        assert(digits_text(digits@.take(i as int)) =~= digits_text(digits@.take(i - 1)).push(
            digit_char(digits@[i - 1] as int),
        ));
    }
    assert(digits@.take(n as int) =~= digits@);
}

/// Appends the decimal text of `n`.
pub fn push_decimal(s: &mut String, n: u64)
    ensures
        final(s)@ == old(s)@ + decimal_text(n as nat),
    decreases n,
{
    if n >= 10 {
        push_decimal(s, n / 10);
    }
    s.push(char_of_digit((n % 10) as u8));
    assert(s@ =~= old(s)@ + decimal_text(n as nat));
}

pub proof fn lemma_decimal_text_len(n: nat)
    ensures
        1 <= decimal_text(n).len(),
        n < 10 ==> decimal_text(n).len() == 1,
        10 <= n < 100 ==> decimal_text(n).len() == 2,
        100 <= n < 1000 ==> decimal_text(n).len() == 3,
        1000 <= n < 10000 ==> decimal_text(n).len() == 4,
        n >= 10000 ==> decimal_text(n).len() >= 5,
    decreases n,
{
    if n >= 10 {
        lemma_decimal_text_len(n / 10);
    }
}

/// Appends the decimal text of `n`, padded with zeros to at least `width` characters.
pub fn push_zero_padded(s: &mut String, n: u64, width: usize)
    ensures
        final(s)@ == old(s)@ + zero_padded(n as nat, width as nat),
{
    let mut t = String::new();
    push_decimal(&mut t, n);
    assert(t@ =~= decimal_text(n as nat));
    let len = t.as_str().unicode_len();
    let mut k: usize = len;
    while k < width
        invariant
            len <= k,
            k <= width || k == len,
            len == decimal_text(n as nat).len(),
            s@ == old(s)@ + zeros((k - len) as nat),
        decreases width - k,
    {
        s.push('0');
        k = k + 1;
        assert(s@ =~= old(s)@ + zeros((k - len) as nat));
    }
    s.append(t.as_str());
    proof {
        if len < width {
            assert(s@ =~= old(s)@ + (zeros((width - len) as nat) + decimal_text(n as nat)));
        } else {
            assert(zeros(0) =~= Seq::<char>::empty());
            assert(s@ =~= old(s)@ + decimal_text(n as nat));
        }
    }
}

pub proof fn lemma_decimal_value_prefix_monotone(s: Seq<char>, i: int)
    requires
        0 <= i <= s.len(),
        all_digit_chars(s),
    ensures
        decimal_value(s.take(i)) <= decimal_value(s),
    decreases s.len() - i,
{
    if i < s.len() {
        lemma_decimal_value_prefix_monotone(s, i + 1);
        assert(s.take(i + 1).drop_last() =~= s.take(i));
        assert(is_digit_char(s[i]));
    } else {
        assert(s.take(i) =~= s);
    }
}

/// Parses an unsigned decimal number no larger than `max`, as `str::parse` does for an
/// unsigned integer type whose largest value is `max`.
pub fn parse_unsigned_text(chars: &[char], max: u64) -> (r: Option<u64>)
    ensures
        match r {
            Some(v) => parse_unsigned(chars@, max as nat) == Some(v as nat),
            None => parse_unsigned(chars@, max as nat) is None,
        },
{
    let n = chars.len();
    let start: usize = if n > 0 && chars[0] == '+' {
        1
    } else {
        0
    };
    let ghost body = chars@.skip(start as int);
    proof {
        if n > 0 && chars@[0] == '+' {
            assert(body =~= chars@.drop_first());
        } else {
            assert(body =~= chars@);
        }
    }
    if start == n {
        return None;
    }
    let mut acc: u64 = 0;
    let mut i: usize = start;
    while i < n
        invariant
            start <= i <= n,
            n == chars@.len(),
            start < n,
            body == chars@.skip(start as int),
            body == (if chars@.len() > 0 && chars@[0] == '+' {
                chars@.drop_first()
            } else {
                chars@
            }),
            all_digit_chars(body.take(i - start)),
            acc as nat == decimal_value(body.take(i - start)),
            acc <= max,
        decreases n - i,
    {
        let k = i - start;
        assert(body.take(k + 1).drop_last() =~= body.take(k as int));
        assert(body[k as int] == chars@[i as int]);
        match to_digit10(chars[i]) {
            None => {
                assert(!all_digit_chars(body));
                return None;
            },
            Some(d) => {
                assert(all_digit_chars(body.take(k + 1))) by {
                    assert forall|j: int| 0 <= j < k + 1 implies is_digit_char(
                        #[trigger] body.take(k + 1)[j],
                    ) by {
                        if j < k {
                            assert(body.take(k + 1)[j] == body.take(k as int)[j]);
                        }
                    }
                }
                if d as u64 > max || acc > (max - d as u64) / 10 {
                    proof {
                        if d <= max {
                            assert(acc * 10 + d > max) by (nonlinear_arith)
                                requires
                                    acc > (max - d) / 10,
                                    d <= max,
                            {
                            }
                        }
                        if all_digit_chars(body) {
                            lemma_decimal_value_prefix_monotone(body, k + 1);
                        }
                    }
                    return None;
                }
                assert(acc * 10 + d <= max) by (nonlinear_arith)
                    requires
                        acc <= (max - d) / 10,
                        d <= max,
                {
                }
                acc = acc * 10 + d as u64;
                i = i + 1;
            },
        }
    }
    assert(body.take(n - start) =~= body);
    Some(acc)
}

/// Whether two texts are the same.
pub fn text_equals(a: &str, b: &str) -> (r: bool)
    ensures
        r == (a@ == b@),
{
    let x = chars_of(a);
    let y = chars_of(b);
    if x.len() != y.len() {
        return false;
    }
    let n = x.len();
    let mut i: usize = 0;
    while i < n
        invariant
            n == x@.len(),
            n == y@.len(),
            x@ == a@,
            y@ == b@,
            i <= n,
            x@.take(i as int) == y@.take(i as int),
        decreases n - i,
    {
        if x[i] != y[i] {
            return false;
        }
        i = i + 1;
        assert(x@.take(i as int) =~= x@.take(i - 1).push(x@[i - 1]));
        assert(y@.take(i as int) =~= y@.take(i - 1).push(y@[i - 1]));
    }
    assert(x@.take(n as int) =~= x@);
    assert(y@.take(n as int) =~= y@);
    true
}

/// The decimal text of an integer, with a minus sign where it is negative.
pub open spec fn signed_text(v: int) -> Seq<char> {
    if v < 0 {
        seq!['-'] + decimal_text((-v) as nat)
    } else {
        decimal_text(v as nat)
    }
}

/// An integer as `format!("{:0width$}")` writes it: zero-padded to `width` characters,
/// a minus sign counting toward the width.
pub open spec fn signed_zero_padded(v: int, width: nat) -> Seq<char> {
    if v < 0 {
        seq!['-'] + zero_padded((-v) as nat, if width > 0 {
            (width - 1) as nat
        } else {
            0
        })
    } else {
        zero_padded(v as nat, width)
    }
}

/// Appends the decimal text of an integer.
pub fn push_signed(s: &mut String, v: i64)
    ensures
        final(s)@ == old(s)@ + signed_text(v as int),
{
    if v < 0 {
        s.push('-');
        let magnitude: u64 = if v == i64::MIN {
            9223372036854775808
        } else {
            (0 - v) as u64
        };
        push_decimal(s, magnitude);
        assert(s@ =~= old(s)@ + signed_text(v as int));
    } else {
        push_decimal(s, v as u64);
    }
}

/// Appends an integer zero-padded to `width` characters, a minus sign counting toward
/// the width.
pub fn push_signed_zero_padded(s: &mut String, v: i64, width: usize)
    ensures
        final(s)@ == old(s)@ + signed_zero_padded(v as int, width as nat),
{
    if v < 0 {
        s.push('-');
        let magnitude: u64 = if v == i64::MIN {
            9223372036854775808
        } else {
            (0 - v) as u64
        };
        let w = if width > 0 {
            width - 1
        } else {
            0
        };
        push_zero_padded(s, magnitude, w);
        assert(s@ =~= old(s)@ + signed_zero_padded(v as int, width as nat));
    } else {
        push_zero_padded(s, v as u64, width);
    }
}

} // verus!
