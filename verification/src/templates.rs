//! The HTML page: templates whose `{{PLACEHOLDER}}`s are filled in turn with the
//! texts of a language, the submitted form, an error and the generated people.
use vstd::prelude::*;
use vstd::string::*;

use crate::dto::{is_blank_form, GenerateForm, PersonDto};
use crate::lang::{lang_code, messages_for, other_lang, Lang};
use crate::text::{chars_of, decimal_text, push_decimal};

verus! {

/// The page around the form and the results.
pub const PAGE_TEMPLATE: &'static str = "<!DOCTYPE html>
<html lang=\"{{HTML_LANG}}\">
<head>
<meta charset=\"utf-8\">
<meta name=\"viewport\" content=\"width=device-width, initial-scale=1\">
<title>{{TITLE}}</title>
<meta name=\"description\" content=\"{{TAGLINE}}\">
<link rel=\"canonical\" href=\"{{CANONICAL_URL}}\">
<meta property=\"og:title\" content=\"{{TITLE}}\">
<meta property=\"og:url\" content=\"{{OG_URL}}\">
{{HREFLANG_LINKS}}
<link rel=\"stylesheet\" href=\"/styles.css\">
</head>
<body>
<header>
<h1>{{TITLE}}</h1>
<p class=\"tagline\">{{TAGLINE}}</p>
<a class=\"lang-switch\" href=\"{{LANG_SWITCH_HREF}}\">{{LANG_SWITCH_LABEL}}</a>
</header>
<main>
{{ERROR_HTML}}
{{FORM_HTML}}
{{RESULTS_HTML}}
</main>
<footer>
<p class=\"disclaimer\">{{DISCLAIMER}}</p>
</footer>
</body>
</html>
";

/// The generation form.
pub const FORM_TEMPLATE: &'static str = "<form method=\"post\" action=\"{{FORM_ACTION}}\">
<label for=\"gender\">{{LABEL_GENDER}}</label>
<select id=\"gender\" name=\"gender\">
<option value=\"\" {{GENDER_ANY_SELECTED}}>{{OPTION_ANY}}</option>
<option value=\"male\" {{GENDER_MALE_SELECTED}}>{{OPTION_MALE}}</option>
<option value=\"female\" {{GENDER_FEMALE_SELECTED}}>{{OPTION_FEMALE}}</option>
</select>
<label for=\"count\">{{LABEL_COUNT}}</label>
<input type=\"number\" id=\"count\" name=\"count\" min=\"1\" max=\"50\" value=\"{{COUNT_VALUE}}\">
<label for=\"min_date\">{{LABEL_MIN_DATE}}</label>
<input type=\"date\" id=\"min_date\" name=\"min_date\" value=\"{{MIN_DATE}}\">
<label for=\"max_date\">{{LABEL_MAX_DATE}}</label>
<input type=\"date\" id=\"max_date\" name=\"max_date\" value=\"{{MAX_DATE}}\">
<label for=\"seed\">{{LABEL_SEED}}</label>
<input type=\"number\" id=\"seed\" name=\"seed\" min=\"0\" value=\"{{SEED}}\">
<button type=\"submit\">{{BUTTON_GENERATE}}</button>
</form>
";

/// The results: the seed, the people as JSON and a table of people.
pub const RESULTS_TEMPLATE: &'static str = "<section class=\"results\">
<p class=\"seed-used\">{{SEED_USED_PREFIX}} <code>{{SEED}}</code> {{SEED_USED_SUFFIX}}</p>
<button type=\"button\" class=\"copy-all\" data-target=\"people-json\">{{COPY_ALL_LABEL}}</button>
<script type=\"application/json\" id=\"people-json\">{{JSON_PAYLOAD}}</script>
<table>
<thead>
<tr><th></th><th>PESEL</th><th>NIP</th><th>IBAN</th></tr>
</thead>
<tbody>
{{ROWS}}
</tbody>
</table>
</section>
";

/// One person of the results.
pub const RESULT_CARD_TEMPLATE: &'static str = "<tr>
<td>
<div class=\"card\">
<p class=\"name\">{{FIRST_NAME}} {{LAST_NAME}} <span class=\"badge {{BADGE_CLASS}}\">{{GENDER}}</span></p>
<dl>
<dt>{{LABEL_FIRST_NAME}}</dt><dd>{{FIRST_NAME}}</dd>
<dt>{{LABEL_LAST_NAME}}</dt><dd>{{LAST_NAME}}</dd>
<dt>{{LABEL_GENDER}}</dt><dd>{{GENDER}}</dd>
<dt>{{LABEL_DATE_OF_BIRTH}}</dt><dd>{{DATE_OF_BIRTH}}</dd>
<dt>{{LABEL_CITY}}</dt><dd>{{CITY}}</dd>
<dt>{{LABEL_POSTAL_CODE}}</dt><dd>{{POSTAL_CODE}}</dd>
<dt>{{LABEL_PHONE}}</dt><dd>{{PHONE}}</dd>
<dt>{{LABEL_EMAIL}}</dt><dd>{{EMAIL}}</dd>
<dt>{{LABEL_ID_DOCUMENT}}</dt><dd>{{ID_DOCUMENT}}</dd>
</dl>
</div>
</td>
<td><code>{{PESEL}}</code></td>
<td><code>{{NIP}}</code></td>
<td><code>{{IBAN}}</code></td>
</tr>
";

/// The links to the page in each language.
pub const HREFLANG_LINKS: &'static str = "<link rel=\"alternate\" hreflang=\"pl\" href=\"https://pl-testdata.onrender.com/pl/\" /><link rel=\"alternate\" hreflang=\"en\" href=\"https://pl-testdata.onrender.com/en/\" />";

/// What a page is made of.
pub struct PageContext<'a> {
    pub lang: Lang,
    /// The generated people, the seed they were generated from, and the people as JSON.
    pub person_results: Option<(&'a [PersonDto], u64, &'a str)>,
    pub submitted_form: Option<&'a GenerateForm>,
    pub error: Option<String>,
}

/// `s` with every non-overlapping occurrence of `p`, from left to right, replaced by
/// `w` (as `str::replace` does, for a non-empty `p`).
pub open spec fn replaced(s: Seq<char>, p: Seq<char>, w: Seq<char>) -> Seq<char>
    decreases s.len(),
{
    if p.len() == 0 || s.len() < p.len() {
        s
    } else if s.subrange(0, p.len() as int) == p {
        w + replaced(s.skip(p.len() as int), p, w)
    } else {
        seq![s[0]] + replaced(s.skip(1), p, w)
    }
}

/// A template with each placeholder in turn replaced by its value.
pub open spec fn filled(t: Seq<char>, pairs: Seq<(Seq<char>, Seq<char>)>) -> Seq<char>
    decreases pairs.len(),
{
    if pairs.len() == 0 {
        t
    } else {
        filled(replaced(t, pairs[0].0, pairs[0].1), pairs.drop_first())
    }
}

/// The HTML entity of a character that HTML text may not hold as it is.
pub open spec fn html_entity(c: char) -> Seq<char> {
    if c == '&' {
        "&amp;"@
    } else if c == '<' {
        "&lt;"@
    } else if c == '>' {
        "&gt;"@
    } else if c == '"' {
        "&quot;"@
    } else {
        seq![c]
    }
}

/// A text with `&`, `<`, `>` and `"` written as HTML entities.
pub open spec fn html_escaped(s: Seq<char>) -> Seq<char>
    decreases s.len(),
{
    if s.len() == 0 {
        Seq::empty()
    } else {
        html_escaped(s.drop_last()) + html_entity(s.last())
    }
}

/// A character that escaping writes as an entity.
pub open spec fn is_markup_char(c: char) -> bool {
    c == '&' || c == '<' || c == '>' || c == '"'
}

proof fn lemma_entity_facts(c: char)
    ensures
        html_entity(c).len() >= 1,
        html_entity(c).len() == 1 <==> !is_markup_char(c),
        !is_markup_char(c) ==> html_entity(c) == seq![c],
        forall|i: int|
            0 <= i < html_entity(c).len() ==> #[trigger] html_entity(c)[i] != '<'
                && html_entity(c)[i] != '>' && html_entity(c)[i] != '"',
{
    reveal_strlit("&amp;");
    reveal_strlit("&lt;");
    reveal_strlit("&gt;");
    reveal_strlit("&quot;");
}

/// Escaped text holds no `<`, `>` or `"`: a message shown in escaped form cannot
/// open or close markup, nor end an attribute value.
pub proof fn lemma_escaped_has_no_markup(s: Seq<char>)
    ensures
        forall|i: int|
            0 <= i < html_escaped(s).len() ==> #[trigger] html_escaped(s)[i] != '<'
                && html_escaped(s)[i] != '>' && html_escaped(s)[i] != '"',
    decreases s.len(),
{
    if s.len() > 0 {
        lemma_escaped_has_no_markup(s.drop_last());
        lemma_entity_facts(s.last());
        let a = html_escaped(s.drop_last());
        let b = html_entity(s.last());
        assert forall|i: int| 0 <= i < (a + b).len() implies #[trigger] (a + b)[i] != '<' && (a
            + b)[i] != '>' && (a + b)[i] != '"' by {
            if i >= a.len() {
                assert((a + b)[i] == b[i - a.len()]);
            } else {
                assert((a + b)[i] == a[i]);
            }
        }
    }
}

/// Escaping never shortens a text, and leaves it unchanged exactly when it holds no
/// markup character.
pub proof fn lemma_escaped_unchanged_iff_no_markup(s: Seq<char>)
    ensures
        html_escaped(s).len() >= s.len(),
        html_escaped(s).len() == s.len() <==> no_markup(s),
        html_escaped(s) == s <==> no_markup(s),
    decreases s.len(),
{
    if s.len() > 0 {
        let t = s.drop_last();
        lemma_escaped_unchanged_iff_no_markup(t);
        lemma_entity_facts(s.last());
        if no_markup(s) {
            assert forall|i: int| 0 <= i < t.len() implies !is_markup_char(#[trigger] t[i]) by {
                assert(t[i] == s[i]);
            }
            assert(no_markup(t));
            assert(!is_markup_char(s[s.len() - 1]));
            assert(html_escaped(s) =~= t + seq![s.last()]);
            assert(t + seq![s.last()] =~= s);
        } else {
            let k = choose|i: int| 0 <= i < s.len() && is_markup_char(#[trigger] s[i]);
            if k < s.len() - 1 {
                assert(t[k] == s[k]);
                assert(!no_markup(t));
            }
            assert(html_escaped(s).len() > s.len());
        }
    } else {
        assert(html_escaped(s) =~= s);
    }
}

/// A text holds no markup character.
pub open spec fn no_markup(s: Seq<char>) -> bool {
    forall|i: int| 0 <= i < s.len() ==> !is_markup_char(#[trigger] s[i])
}

/// The text that undoing the entities gives: `&quot;`, `&gt;`, `&lt;` and then
/// `&amp;` replaced in turn by the character they stand for.
pub open spec fn html_unescaped(r: Seq<char>) -> Seq<char> {
    replaced(
        replaced(replaced(replaced(r, "&quot;"@, "\""@), "&gt;"@, ">"@), "&lt;"@, "<"@),
        "&amp;"@,
        "&"@,
    )
}

/// The texts that a function gives for each character of a text, one after another.
pub open spec fn blocks(s: Seq<char>, f: spec_fn(char) -> Seq<char>) -> Seq<char>
    decreases s.len(),
{
    if s.len() == 0 {
        Seq::empty()
    } else {
        f(s[0]) + blocks(s.skip(1), f)
    }
}

proof fn lemma_blocks_push(s: Seq<char>, f: spec_fn(char) -> Seq<char>)
    requires
        s.len() > 0,
    ensures
        blocks(s, f) == blocks(s.drop_last(), f) + f(s.last()),
    decreases s.len(),
{
    if s.len() == 1 {
        assert(s.skip(1) =~= Seq::<char>::empty());
        assert(s.drop_last() =~= Seq::<char>::empty());
        assert(blocks(s.skip(1), f) == Seq::<char>::empty());
        assert(blocks(s.drop_last(), f) == Seq::<char>::empty());
        assert(blocks(s, f) =~= blocks(s.drop_last(), f) + f(s.last()));
    } else {
        lemma_blocks_push(s.skip(1), f);
        assert(s.skip(1).drop_last() =~= s.drop_last().skip(1));
        assert(s.drop_last()[0] == s[0]);
        assert(s.skip(1).last() == s.last());
        assert(blocks(s, f) =~= blocks(s.drop_last(), f) + f(s.last()));
    }
}

proof fn lemma_escaped_is_blocks(s: Seq<char>)
    ensures
        html_escaped(s) == blocks(s, |c: char| html_entity(c)),
    decreases s.len(),
{
    if s.len() > 0 {
        lemma_escaped_is_blocks(s.drop_last());
        lemma_blocks_push(s, |c: char| html_entity(c));
    }
}

proof fn lemma_blocks_of_chars(s: Seq<char>)
    ensures
        blocks(s, |c: char| seq![c]) == s,
    decreases s.len(),
{
    if s.len() > 0 {
        lemma_blocks_of_chars(s.skip(1));
        assert(seq![s[0]] + s.skip(1) =~= s);
    }
}

/// No character of `y` starts `p`.
pub open spec fn starts_nowhere(y: Seq<char>, p: Seq<char>) -> bool {
    forall|i: int| 0 <= i < y.len() ==> #[trigger] y[i] != p[0]
}

proof fn lemma_replaced_passes(y: Seq<char>, x: Seq<char>, p: Seq<char>, w: Seq<char>)
    requires
        p.len() > 0,
        starts_nowhere(y, p),
    ensures
        replaced(y + x, p, w) == y + replaced(x, p, w),
    decreases y.len(),
{
    if y.len() == 0 {
        assert(y + x =~= x);
    } else {
        let z = y + x;
        if z.len() < p.len() {
            assert(z.len() >= x.len());
            assert(replaced(x, p, w) == x);
        } else {
            assert(z.subrange(0, p.len() as int)[0] == y[0]);
            assert(z.subrange(0, p.len() as int) != p);
            assert(starts_nowhere(y.skip(1), p)) by {
                assert forall|i: int| 0 <= i < y.skip(1).len() implies #[trigger] y.skip(1)[i]
                    != p[0] by {
                    assert(y.skip(1)[i] == y[i + 1]);
                }
            }
            lemma_replaced_passes(y.skip(1), x, p, w);
            assert(z.skip(1) =~= y.skip(1) + x);
            assert(seq![z[0]] + (y.skip(1) + replaced(x, p, w)) =~= y + replaced(x, p, w));
        }
    }
}

/// How one block of text turns into another when `p` is replaced by `w` in it, when
/// other blocks follow: it is `p` itself, or it holds no start of `p`, or it starts
/// like `p` but parts from it at the second character and holds no other start.
pub open spec fn block_step(b: Seq<char>, g: Seq<char>, p: Seq<char>, w: Seq<char>) -> bool {
    ||| b == p && g == w
    ||| starts_nowhere(b, p) && g == b
    ||| b.len() >= 2 && b[0] == p[0] && b[1] != p[1] && starts_nowhere(b.skip(1), p) && g == b
}

proof fn lemma_block_step(b: Seq<char>, g: Seq<char>, x: Seq<char>, p: Seq<char>, w: Seq<char>)
    requires
        p.len() >= 2,
        block_step(b, g, p, w),
    ensures
        replaced(b + x, p, w) == g + replaced(x, p, w),
{
    let z = b + x;
    if b == p {
        assert(z.subrange(0, p.len() as int) =~= p);
        assert(z.skip(p.len() as int) =~= x);
    } else if starts_nowhere(b, p) {
        lemma_replaced_passes(b, x, p, w);
    } else {
        if z.len() < p.len() {
            assert(replaced(x, p, w) == x);
        } else {
            assert(z.subrange(0, p.len() as int)[1] == b[1]);
            assert(z.subrange(0, p.len() as int) != p);
            lemma_replaced_passes(b.skip(1), x, p, w);
            assert(z.skip(1) =~= b.skip(1) + x);
            assert(seq![z[0]] + (b.skip(1) + replaced(x, p, w)) =~= b + replaced(x, p, w));
        }
    }
}

proof fn lemma_replaced_blocks(
    s: Seq<char>,
    f: spec_fn(char) -> Seq<char>,
    g: spec_fn(char) -> Seq<char>,
    p: Seq<char>,
    w: Seq<char>,
)
    requires
        p.len() >= 2,
        forall|c: char| #[trigger] block_step(f(c), g(c), p, w),
    ensures
        replaced(blocks(s, f), p, w) == blocks(s, g),
    decreases s.len(),
{
    if s.len() == 0 {
        assert(replaced(Seq::<char>::empty(), p, w) == Seq::<char>::empty());
    } else {
        lemma_replaced_blocks(s.skip(1), f, g, p, w);
        assert(block_step(f(s[0]), g(s[0]), p, w));
        lemma_block_step(f(s[0]), g(s[0]), blocks(s.skip(1), f), p, w);
    }
}

/// The texts of a character after undoing the first `k` kinds of entity.
pub open spec fn unescape_stage(k: int, c: char) -> Seq<char> {
    if k >= 4 || (k >= 3 && c == '<') || (k >= 2 && c == '>') || (k >= 1 && c == '"') {
        seq![c]
    } else {
        html_entity(c)
    }
}

/// Escaping a text and undoing its entities gives the text back.
pub proof fn lemma_unescape_escaped(s: Seq<char>)
    ensures
        html_unescaped(html_escaped(s)) == s,
{
    reveal_strlit("&amp;");
    reveal_strlit("&lt;");
    reveal_strlit("&gt;");
    reveal_strlit("&quot;");
    reveal_strlit("&");
    reveal_strlit("<");
    reveal_strlit(">");
    reveal_strlit("\"");
    let f0 = |c: char| html_entity(c);
    let f1 = |c: char| unescape_stage(1, c);
    let f2 = |c: char| unescape_stage(2, c);
    let f3 = |c: char| unescape_stage(3, c);
    let f4 = |c: char| seq![c];
    let amp = seq!['&', 'a', 'm', 'p', ';'];
    let lt = seq!['&', 'l', 't', ';'];
    let gt = seq!['&', 'g', 't', ';'];
    let quot = seq!['&', 'q', 'u', 'o', 't', ';'];
    assert("&amp;"@ =~= amp);
    assert("&lt;"@ =~= lt);
    assert("&gt;"@ =~= gt);
    assert("&quot;"@ =~= quot);
    assert(starts_nowhere(amp.skip(1), quot) && starts_nowhere(lt.skip(1), quot) && starts_nowhere(
        gt.skip(1),
        quot,
    )) by {
        assert(amp.skip(1) =~= seq!['a', 'm', 'p', ';']);
        assert(lt.skip(1) =~= seq!['l', 't', ';']);
        assert(gt.skip(1) =~= seq!['g', 't', ';']);
    }
    assert forall|c: char| #[trigger] block_step(f0(c), f1(c), "&quot;"@, "\""@) by {
        if c == '"' {
            assert(f1(c) =~= "\""@);
        } else if !is_markup_char(c) {
            assert(starts_nowhere(f0(c), quot));
        }
    }
    assert forall|c: char| #[trigger] block_step(f1(c), f2(c), "&gt;"@, ">"@) by {
        if c == '>' {
            assert(f2(c) =~= ">"@);
        } else if c == '&' {
            assert(f1(c) == amp);
            assert(amp.skip(1) =~= seq!['a', 'm', 'p', ';']);
            assert(starts_nowhere(amp.skip(1), gt));
        } else if c == '<' {
            assert(f1(c) == lt);
            assert(lt.skip(1) =~= seq!['l', 't', ';']);
            assert(starts_nowhere(lt.skip(1), gt));
        } else {
            assert(f1(c) =~= seq![c]);
            assert(starts_nowhere(f1(c), gt));
        }
    }
    assert forall|c: char| #[trigger] block_step(f2(c), f3(c), "&lt;"@, "<"@) by {
        if c == '<' {
            assert(f3(c) =~= "<"@);
        } else if c == '&' {
            assert(f2(c) == amp);
            assert(amp.skip(1) =~= seq!['a', 'm', 'p', ';']);
            assert(starts_nowhere(amp.skip(1), lt));
        } else {
            assert(f2(c) =~= seq![c]);
            assert(starts_nowhere(f2(c), lt));
        }
    }
    assert forall|c: char| #[trigger] block_step(f3(c), f4(c), "&amp;"@, "&"@) by {
        if c == '&' {
            assert(f3(c) == amp);
            assert(f4(c) =~= "&"@);
        } else {
            assert(f3(c) =~= seq![c]);
            assert(starts_nowhere(f3(c), amp));
        }
    }
    lemma_escaped_is_blocks(s);
    lemma_replaced_blocks(s, f0, f1, "&quot;"@, "\""@);
    lemma_replaced_blocks(s, f1, f2, "&gt;"@, ">"@);
    lemma_replaced_blocks(s, f2, f3, "&lt;"@, "<"@);
    lemma_replaced_blocks(s, f3, f4, "&amp;"@, "&"@);
    lemma_blocks_of_chars(s);
}

/// A text with `&`, `<` and `>` written as HTML entities (for JSON inside a script).
pub open spec fn markup_escaped(s: Seq<char>) -> Seq<char>
    decreases s.len(),
{
    if s.len() == 0 {
        Seq::empty()
    } else {
        markup_escaped(s.drop_last()) + (if s.last() == '"' {
            seq!['"']
        } else {
            html_entity(s.last())
        })
    }
}

/// The values of the pairs of placeholders and values.
pub open spec fn pair_views(v: Seq<(&str, String)>) -> Seq<(Seq<char>, Seq<char>)> {
    v.map_values(|p: (&str, String)| (p.0@, p.1@))
}

proof fn lemma_replaced_step(s: Seq<char>, i: int, p: Seq<char>, w: Seq<char>)
    requires
        0 <= i,
        p.len() > 0,
        i + p.len() <= s.len(),
    ensures
        s.skip(i).subrange(0, p.len() as int) == s.subrange(i, i + p.len()),
        s.skip(i).skip(p.len() as int) == s.skip(i + p.len()),
        s.skip(i).skip(1) == s.skip(i + 1),
        s.skip(i)[0] == s[i],
{
    assert(s.skip(i).subrange(0, p.len() as int) =~= s.subrange(i, i + p.len()));
    assert(s.skip(i).skip(p.len() as int) =~= s.skip(i + p.len()));
    assert(s.skip(i).skip(1) =~= s.skip(i + 1));
}

/// `chars[i..i + pattern.len()]` is `pattern`.
fn matches_at(chars: &Vec<char>, i: usize, pattern: &Vec<char>) -> (r: bool)
    requires
        i + pattern@.len() <= chars@.len(),
    ensures
        r == (chars@.subrange(i as int, i + pattern@.len()) == pattern@),
{
    let n = pattern.len();
    let len = chars.len();
    let mut k: usize = 0;
    while k < n
        invariant
            n == pattern@.len(),
            len == chars@.len(),
            i + n <= chars@.len(),
            k <= n,
            chars@.subrange(i as int, i + k) == pattern@.take(k as int),
        decreases n - k,
    {
        if chars[i + k] != pattern[k] {
            proof {
                if chars@.subrange(i as int, i + n) == pattern@ {
                    assert(chars@.subrange(i as int, i + n)[k as int] == chars@[i + k]);
                }
            }
            return false;
        }
        k = k + 1;
        assert(chars@.subrange(i as int, i + k) =~= pattern@.take(k as int));
    }
    assert(pattern@.take(n as int) =~= pattern@);
    true
}

/// `s` with every occurrence of a non-empty `pattern` replaced by `with`.
pub fn replace_all(s: &str, pattern: &str, with: &str) -> (r: String)
    requires
        pattern@.len() > 0,
    ensures
        r@ == replaced(s@, pattern@, with@),
{
    let chars = chars_of(s);
    let pat = chars_of(pattern);
    let n = chars.len();
    let m = pat.len();
    let mut out = String::new();
    let mut i: usize = 0;
    assert(s@.skip(0) =~= s@);
    while i < n
        invariant
            n == s@.len(),
            m == pattern@.len(),
            m > 0,
            chars@ == s@,
            pat@ == pattern@,
            i <= n,
            out@ + replaced(s@.skip(i as int), pattern@, with@) == replaced(s@, pattern@, with@),
        decreases n - i,
    {
        if m <= n - i && matches_at(&chars, i, &pat) {
            proof {
                lemma_replaced_step(s@, i as int, pattern@, with@);
                assert(out@ + with@ + replaced(s@.skip(i + m), pattern@, with@) =~= out@ + (with@
                    + replaced(s@.skip(i as int).skip(m as int), pattern@, with@)));
            }
            out.append(with);
            i = i + m;
        } else {
            proof {
                if i + m <= n {
                    lemma_replaced_step(s@, i as int, pattern@, with@);
                } else {
                    assert(s@.skip(i as int)[0] == s@[i as int]);
                    assert(s@.skip(i as int).skip(1) =~= s@.skip(i + 1));
                }
                assert(out@.push(chars@[i as int]) + replaced(s@.skip(i + 1), pattern@, with@)
                    =~= out@ + (seq![s@.skip(i as int)[0]] + replaced(
                    s@.skip(i as int).skip(1),
                    pattern@,
                    with@,
                )));
            }
            out.push(chars[i]);
            i = i + 1;
        }
    }
    assert(out@ + Seq::empty() =~= out@);
    out
}

/// The template with each placeholder in turn replaced by its value.
pub fn fill_template(template: &str, pairs: &Vec<(&str, String)>) -> (r: String)
    requires
        forall|i: int| 0 <= i < pairs@.len() ==> (#[trigger] pairs@[i]).0@.len() > 0,
    ensures
        r@ == filled(template@, pair_views(pairs@)),
{
    let mut out = String::from_str(template);
    let n = pairs.len();
    let mut i: usize = 0;
    assert(pair_views(pairs@).skip(0) =~= pair_views(pairs@));
    while i < n
        invariant
            n == pairs@.len(),
            i <= n,
            forall|j: int| 0 <= j < pairs@.len() ==> (#[trigger] pairs@[j]).0@.len() > 0,
            filled(out@, pair_views(pairs@).skip(i as int)) == filled(
                template@,
                pair_views(pairs@),
            ),
        decreases n - i,
    {
        let ghost before = out@;
        let pair = &pairs[i];
        out = replace_all(out.as_str(), pair.0, pair.1.as_str());
        proof {
            let rest = pair_views(pairs@).skip(i as int);
            assert(rest[0] == (pairs@[i as int].0@, pairs@[i as int].1@));
            assert(rest.drop_first() =~= pair_views(pairs@).skip(i + 1));
        }
        i = i + 1;
    }
    out
}

/// The text with `&`, `<`, `>` and `"` written as HTML entities.
pub fn escape(s: &str) -> (r: String)
    ensures
        r@ == html_escaped(s@),
{
    let chars = chars_of(s);
    let n = chars.len();
    let mut out = String::new();
    let mut i: usize = 0;
    while i < n
        invariant
            n == s@.len(),
            chars@ == s@,
            i <= n,
            out@ == html_escaped(s@.take(i as int)),
        decreases n - i,
    {
        assert(s@.take(i + 1).drop_last() =~= s@.take(i as int));
        let c = chars[i];
        if c == '&' {
            out.append("&amp;");
        } else if c == '<' {
            out.append("&lt;");
        } else if c == '>' {
            out.append("&gt;");
        } else if c == '"' {
            out.append("&quot;");
        } else {
            out.push(c);
        }
        i = i + 1;
    }
    assert(s@.take(n as int) =~= s@);
    out
}

fn escape_markup(s: &str) -> (r: String)
    ensures
        r@ == markup_escaped(s@),
{
    let chars = chars_of(s);
    let n = chars.len();
    let mut out = String::new();
    let mut i: usize = 0;
    while i < n
        invariant
            n == s@.len(),
            chars@ == s@,
            i <= n,
            out@ == markup_escaped(s@.take(i as int)),
        decreases n - i,
    {
        assert(s@.take(i + 1).drop_last() =~= s@.take(i as int));
        let c = chars[i];
        if c == '&' {
            out.append("&amp;");
        } else if c == '<' {
            out.append("&lt;");
        } else if c == '>' {
            out.append("&gt;");
        } else {
            out.push(c);
        }
        i = i + 1;
    }
    assert(s@.take(n as int) =~= s@);
    out
}

/// `/{lang}/generate`: where the form of a language posts to.
pub open spec fn form_action(l: Lang) -> Seq<char> {
    "/"@ + lang_code(l) + "/generate"@
}

/// The placeholders of the form and their values, in the order they are filled.
pub open spec fn form_pairs(l: Lang, gender: Seq<char>, min_date: Seq<char>, max_date: Seq<char>, seed: Seq<char>, count: Seq<char>) -> Seq<(Seq<char>, Seq<char>)> {
    let m = messages_for(l);
    let count_value = if count.len() == 0 {
        "1"@
    } else {
        count
    };
    seq![
        ("{{FORM_ACTION}}"@, form_action(l)),
        ("{{LABEL_GENDER}}"@, m.gender_label@),
        ("{{OPTION_ANY}}"@, m.gender_any@),
        ("{{OPTION_MALE}}"@, m.gender_male@),
        ("{{OPTION_FEMALE}}"@, m.gender_female@),
        ("{{LABEL_COUNT}}"@, m.count_label@),
        ("{{LABEL_MIN_DATE}}"@, m.min_date_label@),
        ("{{LABEL_MAX_DATE}}"@, m.max_date_label@),
        ("{{LABEL_SEED}}"@, m.seed_label@),
        ("{{BUTTON_GENERATE}}"@, m.generate_button@),
        ("{{GENDER_ANY_SELECTED}}"@, if gender.len() == 0 { "selected"@ } else { ""@ }),
        ("{{GENDER_MALE_SELECTED}}"@, if gender == "male"@ { "selected"@ } else { ""@ }),
        ("{{GENDER_FEMALE_SELECTED}}"@, if gender == "female"@ { "selected"@ } else { ""@ }),
        ("{{COUNT_VALUE}}"@, html_escaped(count_value)),
        ("{{MIN_DATE}}"@, html_escaped(min_date)),
        ("{{MAX_DATE}}"@, html_escaped(max_date)),
        ("{{SEED}}"@, html_escaped(seed)),
    ]
}

/// The form of a language, showing the submitted values (an empty form shows a count
/// of 1).
pub open spec fn form_text(l: Lang, submitted: Option<GenerateForm>) -> Seq<char> {
    match submitted {
        Some(f) => filled(FORM_TEMPLATE@, form_pairs(l, f.gender@, f.min_date@, f.max_date@, f.seed@, f.count@)),
        None => filled(FORM_TEMPLATE@, form_pairs(l, ""@, ""@, ""@, ""@, ""@)),
    }
}

/// A submitted form with every field empty (such as the default one) is shown as no
/// form at all: with no gender chosen, a count of 1, and empty dates and seed.
pub proof fn lemma_blank_form_shown_as_none(l: Lang, f: GenerateForm)
    requires
        is_blank_form(f),
    ensures
        form_text(l, Some(f)) == form_text(l, None),
{
    reveal_strlit("");
    assert(f.gender@ =~= ""@);
    assert(f.min_date@ =~= ""@);
    assert(f.max_date@ =~= ""@);
    assert(f.seed@ =~= ""@);
    assert(f.count@ =~= ""@);
}

fn selected_if(b: bool) -> (r: String)
    ensures
        r@ == (if b { "selected"@ } else { ""@ }),
{
    if b {
        String::from_str("selected")
    } else {
        String::from_str("")
    }
}

fn render_form(lang: Lang, submitted: Option<&GenerateForm>) -> (r: String)
    ensures
        r@ == form_text(lang, match submitted { Some(f) => Some(*f), None => None }),
{
    let m = lang.messages();
    let (gender, min_date, max_date, seed, count) = match submitted {
        Some(f) => (
            f.gender.as_str(),
            f.min_date.as_str(),
            f.max_date.as_str(),
            f.seed.as_str(),
            f.count.as_str(),
        ),
        None => ("", "", "", "", ""),
    };
    let count_value = if count.is_empty() {
        "1"
    } else {
        count
    };
    let mut action = String::from_str("/");
    action.append(lang.path_segment());
    action.append("/generate");
    let mut pairs: Vec<(&str, String)> = Vec::new();
    pairs.push(("{{FORM_ACTION}}", action));
    pairs.push(("{{LABEL_GENDER}}", String::from_str(m.gender_label)));
    pairs.push(("{{OPTION_ANY}}", String::from_str(m.gender_any)));
    pairs.push(("{{OPTION_MALE}}", String::from_str(m.gender_male)));
    pairs.push(("{{OPTION_FEMALE}}", String::from_str(m.gender_female)));
    pairs.push(("{{LABEL_COUNT}}", String::from_str(m.count_label)));
    pairs.push(("{{LABEL_MIN_DATE}}", String::from_str(m.min_date_label)));
    pairs.push(("{{LABEL_MAX_DATE}}", String::from_str(m.max_date_label)));
    pairs.push(("{{LABEL_SEED}}", String::from_str(m.seed_label)));
    pairs.push(("{{BUTTON_GENERATE}}", String::from_str(m.generate_button)));
    pairs.push(("{{GENDER_ANY_SELECTED}}", selected_if(gender.is_empty())));
    pairs.push(("{{GENDER_MALE_SELECTED}}", selected_if(crate::text::text_equals(gender, "male"))));
    pairs.push(("{{GENDER_FEMALE_SELECTED}}", selected_if(crate::text::text_equals(gender, "female"))));
    pairs.push(("{{COUNT_VALUE}}", escape(count_value)));
    pairs.push(("{{MIN_DATE}}", escape(min_date)));
    pairs.push(("{{MAX_DATE}}", escape(max_date)));
    pairs.push(("{{SEED}}", escape(seed)));
    proof {
        reveal_strlit("{{FORM_ACTION}}");
        reveal_strlit("{{LABEL_GENDER}}");
        reveal_strlit("{{OPTION_ANY}}");
        reveal_strlit("{{OPTION_MALE}}");
        reveal_strlit("{{OPTION_FEMALE}}");
        reveal_strlit("{{LABEL_COUNT}}");
        reveal_strlit("{{LABEL_MIN_DATE}}");
        reveal_strlit("{{LABEL_MAX_DATE}}");
        reveal_strlit("{{LABEL_SEED}}");
        reveal_strlit("{{BUTTON_GENERATE}}");
        reveal_strlit("{{GENDER_ANY_SELECTED}}");
        reveal_strlit("{{GENDER_MALE_SELECTED}}");
        reveal_strlit("{{GENDER_FEMALE_SELECTED}}");
        reveal_strlit("{{COUNT_VALUE}}");
        reveal_strlit("{{MIN_DATE}}");
        reveal_strlit("{{MAX_DATE}}");
        reveal_strlit("{{SEED}}");
        reveal_strlit("");
        assert(pair_views(pairs@) =~= form_pairs(
            lang,
            gender@,
            min_date@,
            max_date@,
            seed@,
            count@,
        ));
    }
    fill_template(FORM_TEMPLATE, &pairs)
}

/// The placeholders of a person's card and their values, in the order they are filled.
pub open spec fn card_pairs(l: Lang, p: PersonDto) -> Seq<(Seq<char>, Seq<char>)> {
    let m = messages_for(l);
    let male = p.gender@ == "Male"@;
    seq![
        ("{{FIRST_NAME}}"@, html_escaped(p.first_name@)),
        ("{{LAST_NAME}}"@, html_escaped(p.last_name@)),
        ("{{BADGE_CLASS}}"@, if male { "badge-male"@ } else { "badge-female"@ }),
        ("{{GENDER}}"@, if male { m.gender_male@ } else { m.gender_female@ }),
        ("{{DATE_OF_BIRTH}}"@, html_escaped(p.date_of_birth@)),
        ("{{PESEL}}"@, html_escaped(p.pesel@)),
        ("{{NIP}}"@, html_escaped(p.nip@)),
        ("{{CITY}}"@, html_escaped(p.city@)),
        ("{{POSTAL_CODE}}"@, html_escaped(p.postal_code@)),
        ("{{PHONE}}"@, html_escaped(p.phone@)),
        ("{{EMAIL}}"@, html_escaped(p.email@)),
        ("{{ID_DOCUMENT}}"@, html_escaped(p.id_document@)),
        ("{{IBAN}}"@, html_escaped(p.iban@)),
        ("{{LABEL_FIRST_NAME}}"@, m.field_first_name@),
        ("{{LABEL_LAST_NAME}}"@, m.field_last_name@),
        ("{{LABEL_GENDER}}"@, m.gender_label@),
        ("{{LABEL_DATE_OF_BIRTH}}"@, m.field_date_of_birth@),
        ("{{LABEL_CITY}}"@, m.field_city@),
        ("{{LABEL_POSTAL_CODE}}"@, m.field_postal_code@),
        ("{{LABEL_PHONE}}"@, m.field_phone@),
        ("{{LABEL_ID_DOCUMENT}}"@, m.field_id_document@),
        ("{{LABEL_EMAIL}}"@, m.field_email@),
    ]
}

/// The card of one person.
pub open spec fn card_text(l: Lang, p: PersonDto) -> Seq<char> {
    filled(RESULT_CARD_TEMPLATE@, card_pairs(l, p))
}

/// The cards of the people, one after another.
pub open spec fn cards_text(l: Lang, people: Seq<PersonDto>) -> Seq<char>
    decreases people.len(),
{
    if people.len() == 0 {
        Seq::empty()
    } else {
        cards_text(l, people.drop_last()) + card_text(l, people.last())
    }
}

/// The placeholders of the results and their values, in the order they are filled.
pub open spec fn results_pairs(l: Lang, people: Seq<PersonDto>, seed: u64, json: Seq<char>) -> Seq<(Seq<char>, Seq<char>)> {
    let m = messages_for(l);
    seq![
        ("{{SEED_USED_PREFIX}}"@, m.seed_used_prefix@),
        ("{{SEED}}"@, decimal_text(seed as nat)),
        ("{{SEED_USED_SUFFIX}}"@, m.seed_used_suffix@),
        ("{{COPY_ALL_LABEL}}"@, m.copy_all_label@),
        ("{{JSON_PAYLOAD}}"@, markup_escaped(json)),
        ("{{ROWS}}"@, cards_text(l, people)),
    ]
}

/// The results section: the seed, the people as JSON and their cards.
pub open spec fn results_text(l: Lang, people: Seq<PersonDto>, seed: u64, json: Seq<char>) -> Seq<char> {
    filled(RESULTS_TEMPLATE@, results_pairs(l, people, seed, json))
}

/// A card shows any gender text other than exactly `Male` as female: the card of such
/// a person is the card of the same person with the gender `Female`.
pub proof fn lemma_card_non_male_is_female(l: Lang, p: PersonDto, q: PersonDto)
    requires
        p.gender@ != "Male"@,
        q.gender@ == "Female"@,
        q == (PersonDto { gender: q.gender, ..p }),
    ensures
        card_text(l, p) == card_text(l, q),
{
    reveal_strlit("Male");
    reveal_strlit("Female");
    assert("Female"@.len() != "Male"@.len());
    assert(q.gender@ != "Male"@);
    assert(card_pairs(l, p) =~= card_pairs(l, q));
}

fn render_card(lang: Lang, p: &PersonDto) -> (r: String)
    ensures
        r@ == card_text(lang, *p),
{
    let m = lang.messages();
    let male = crate::text::text_equals(p.gender.as_str(), "Male");
    let badge_class = if male {
        "badge-male"
    } else {
        "badge-female"
    };
    let gender_display = if male {
        m.gender_male
    } else {
        m.gender_female
    };
    let mut pairs: Vec<(&str, String)> = Vec::new();
    pairs.push(("{{FIRST_NAME}}", escape(p.first_name.as_str())));
    pairs.push(("{{LAST_NAME}}", escape(p.last_name.as_str())));
    pairs.push(("{{BADGE_CLASS}}", String::from_str(badge_class)));
    pairs.push(("{{GENDER}}", String::from_str(gender_display)));
    pairs.push(("{{DATE_OF_BIRTH}}", escape(p.date_of_birth.as_str())));
    pairs.push(("{{PESEL}}", escape(p.pesel.as_str())));
    pairs.push(("{{NIP}}", escape(p.nip.as_str())));
    pairs.push(("{{CITY}}", escape(p.city.as_str())));
    pairs.push(("{{POSTAL_CODE}}", escape(p.postal_code.as_str())));
    pairs.push(("{{PHONE}}", escape(p.phone.as_str())));
    pairs.push(("{{EMAIL}}", escape(p.email.as_str())));
    pairs.push(("{{ID_DOCUMENT}}", escape(p.id_document.as_str())));
    pairs.push(("{{IBAN}}", escape(p.iban.as_str())));
    pairs.push(("{{LABEL_FIRST_NAME}}", String::from_str(m.field_first_name)));
    pairs.push(("{{LABEL_LAST_NAME}}", String::from_str(m.field_last_name)));
    pairs.push(("{{LABEL_GENDER}}", String::from_str(m.gender_label)));
    pairs.push(("{{LABEL_DATE_OF_BIRTH}}", String::from_str(m.field_date_of_birth)));
    pairs.push(("{{LABEL_CITY}}", String::from_str(m.field_city)));
    pairs.push(("{{LABEL_POSTAL_CODE}}", String::from_str(m.field_postal_code)));
    pairs.push(("{{LABEL_PHONE}}", String::from_str(m.field_phone)));
    pairs.push(("{{LABEL_ID_DOCUMENT}}", String::from_str(m.field_id_document)));
    pairs.push(("{{LABEL_EMAIL}}", String::from_str(m.field_email)));
    proof {
        reveal_strlit("{{FIRST_NAME}}");
        reveal_strlit("{{LAST_NAME}}");
        reveal_strlit("{{BADGE_CLASS}}");
        reveal_strlit("{{GENDER}}");
        reveal_strlit("{{DATE_OF_BIRTH}}");
        reveal_strlit("{{PESEL}}");
        reveal_strlit("{{NIP}}");
        reveal_strlit("{{CITY}}");
        reveal_strlit("{{POSTAL_CODE}}");
        reveal_strlit("{{PHONE}}");
        reveal_strlit("{{EMAIL}}");
        reveal_strlit("{{ID_DOCUMENT}}");
        reveal_strlit("{{IBAN}}");
        reveal_strlit("{{LABEL_FIRST_NAME}}");
        reveal_strlit("{{LABEL_LAST_NAME}}");
        reveal_strlit("{{LABEL_GENDER}}");
        reveal_strlit("{{LABEL_DATE_OF_BIRTH}}");
        reveal_strlit("{{LABEL_CITY}}");
        reveal_strlit("{{LABEL_POSTAL_CODE}}");
        reveal_strlit("{{LABEL_PHONE}}");
        reveal_strlit("{{LABEL_ID_DOCUMENT}}");
        reveal_strlit("{{LABEL_EMAIL}}");
        assert(pair_views(pairs@) =~= card_pairs(lang, *p));
    }
    fill_template(RESULT_CARD_TEMPLATE, &pairs)
}

fn result_section(lang: Lang, people: &[PersonDto], seed: u64, json: &str) -> (r: String)
    ensures
        r@ == results_text(lang, people@, seed, json@),
{
    let m = lang.messages();
    let mut cards = String::new();
    let n = people.len();
    let mut i: usize = 0;
    while i < n
        invariant
            n == people@.len(),
            i <= n,
            cards@ == cards_text(lang, people@.take(i as int)),
        decreases n - i,
    {
        assert(people@.take(i + 1).drop_last() =~= people@.take(i as int));
        let card = render_card(lang, &people[i]);
        cards.append(card.as_str());
        i = i + 1;
    }
    assert(people@.take(n as int) =~= people@);
    let mut seed_text = String::new();
    push_decimal(&mut seed_text, seed);
    assert(seed_text@ =~= decimal_text(seed as nat));
    let mut pairs: Vec<(&str, String)> = Vec::new();
    pairs.push(("{{SEED_USED_PREFIX}}", String::from_str(m.seed_used_prefix)));
    pairs.push(("{{SEED}}", seed_text));
    pairs.push(("{{SEED_USED_SUFFIX}}", String::from_str(m.seed_used_suffix)));
    pairs.push(("{{COPY_ALL_LABEL}}", String::from_str(m.copy_all_label)));
    pairs.push(("{{JSON_PAYLOAD}}", escape_markup(json)));
    pairs.push(("{{ROWS}}", cards));
    proof {
        reveal_strlit("{{SEED_USED_PREFIX}}");
        reveal_strlit("{{SEED}}");
        reveal_strlit("{{SEED_USED_SUFFIX}}");
        reveal_strlit("{{COPY_ALL_LABEL}}");
        reveal_strlit("{{JSON_PAYLOAD}}");
        reveal_strlit("{{ROWS}}");
        assert(pair_views(pairs@) =~= results_pairs(lang, people@, seed, json@));
    }
    fill_template(RESULTS_TEMPLATE, &pairs)
}

/// The notice of an error, above the form.
pub open spec fn error_text(error: Option<String>) -> Seq<char> {
    match error {
        Some(msg) => "<p class=\"error\" role=\"alert\">⚠️ "@ + html_escaped(msg@) + "</p>"@,
        None => ""@,
    }
}

/// The address of the page in a language.
pub open spec fn canonical_url(l: Lang) -> Seq<char> {
    "https://pl-testdata.onrender.com/"@ + lang_code(l) + "/"@
}

/// The results shown on a page, if any.
pub open spec fn page_results_text(l: Lang, results: Option<(&[PersonDto], u64, &str)>) -> Seq<char> {
    match results {
        Some((people, seed, json)) => results_text(l, people@, seed, json@),
        None => ""@,
    }
}

/// The placeholders of the page and their values, in the order they are filled.
pub open spec fn page_pairs(ctx: PageContext) -> Seq<(Seq<char>, Seq<char>)> {
    let l = ctx.lang;
    let m = messages_for(l);
    seq![
        ("{{HTML_LANG}}"@, m.html_lang@),
        ("{{TITLE}}"@, m.title@),
        ("{{TAGLINE}}"@, m.tagline@),
        ("{{DISCLAIMER}}"@, m.disclaimer@),
        ("{{HREFLANG_LINKS}}"@, HREFLANG_LINKS@),
        ("{{LANG_SWITCH_HREF}}"@, "/"@ + lang_code(other_lang(l)) + "/"@),
        ("{{LANG_SWITCH_LABEL}}"@, m.switch_label@),
        ("{{CANONICAL_URL}}"@, canonical_url(l)),
        ("{{OG_URL}}"@, canonical_url(l)),
        ("{{ERROR_HTML}}"@, error_text(ctx.error)),
        ("{{FORM_HTML}}"@, form_text(l, match ctx.submitted_form {
            Some(f) => Some(*f),
            None => None,
        })),
        ("{{RESULTS_HTML}}"@, page_results_text(l, ctx.person_results)),
    ]
}

/// The whole page.
pub open spec fn page_text(ctx: PageContext) -> Seq<char> {
    filled(PAGE_TEMPLATE@, page_pairs(ctx))
}

fn error_notice(error: &Option<String>) -> (r: String)
    ensures
        r@ == error_text(*error),
{
    match error {
        Some(msg) => {
            let mut e = String::from_str("<p class=\"error\" role=\"alert\">⚠️ ");
            let escaped = escape(msg.as_str());
            e.append(escaped.as_str());
            e.append("</p>");
            e
        },
        None => {
            proof {
                reveal_strlit("");
            }
            String::new()
        },
    }
}

/// The page of a language with the form (showing what was submitted, if anything),
/// the notice of an error and the results, where there are any.
pub fn page(ctx: PageContext) -> (r: String)
    ensures
        r@ == page_text(ctx),
{
    let lang = ctx.lang;
    let m = lang.messages();
    let other = lang.other();
    let error_html = error_notice(&ctx.error);
    let form_html = render_form(lang, ctx.submitted_form);
    let results_html = match ctx.person_results {
        Some((people, seed, json)) => result_section(lang, people, seed, json),
        None => String::new(),
    };
    let mut switch_href = String::from_str("/");
    switch_href.append(other.path_segment());
    switch_href.append("/");
    let mut canonical = String::from_str("https://pl-testdata.onrender.com/");
    canonical.append(lang.path_segment());
    canonical.append("/");
    let og_url = canonical.clone();
    let mut pairs: Vec<(&str, String)> = Vec::new();
    pairs.push(("{{HTML_LANG}}", String::from_str(m.html_lang)));
    pairs.push(("{{TITLE}}", String::from_str(m.title)));
    pairs.push(("{{TAGLINE}}", String::from_str(m.tagline)));
    pairs.push(("{{DISCLAIMER}}", String::from_str(m.disclaimer)));
    pairs.push(("{{HREFLANG_LINKS}}", String::from_str(HREFLANG_LINKS)));
    pairs.push(("{{LANG_SWITCH_HREF}}", switch_href));
    pairs.push(("{{LANG_SWITCH_LABEL}}", String::from_str(m.switch_label)));
    pairs.push(("{{CANONICAL_URL}}", canonical));
    pairs.push(("{{OG_URL}}", og_url));
    pairs.push(("{{ERROR_HTML}}", error_html));
    pairs.push(("{{FORM_HTML}}", form_html));
    pairs.push(("{{RESULTS_HTML}}", results_html));
    proof {
        reveal_strlit("{{HTML_LANG}}");
        reveal_strlit("{{TITLE}}");
        reveal_strlit("{{TAGLINE}}");
        reveal_strlit("{{DISCLAIMER}}");
        reveal_strlit("{{HREFLANG_LINKS}}");
        reveal_strlit("{{LANG_SWITCH_HREF}}");
        reveal_strlit("{{LANG_SWITCH_LABEL}}");
        reveal_strlit("{{CANONICAL_URL}}");
        reveal_strlit("{{OG_URL}}");
        reveal_strlit("{{ERROR_HTML}}");
        reveal_strlit("{{FORM_HTML}}");
        reveal_strlit("{{RESULTS_HTML}}");
        reveal_strlit("");
        assert(pair_views(pairs@)[0] == page_pairs(ctx)[0]);
        assert(pair_views(pairs@)[1] == page_pairs(ctx)[1]);
        assert(pair_views(pairs@)[2] == page_pairs(ctx)[2]);
        assert(pair_views(pairs@)[3] == page_pairs(ctx)[3]);
        assert(pair_views(pairs@)[4] == page_pairs(ctx)[4]);
        assert(pair_views(pairs@)[5] == page_pairs(ctx)[5]);
        assert(pair_views(pairs@)[6] == page_pairs(ctx)[6]);
        assert(pair_views(pairs@)[7] == page_pairs(ctx)[7]);
        assert(pair_views(pairs@)[8] == page_pairs(ctx)[8]);
        assert(pair_views(pairs@)[9] == page_pairs(ctx)[9]);
        assert(pair_views(pairs@)[10] == page_pairs(ctx)[10]);
        assert(pair_views(pairs@)[11] == page_pairs(ctx)[11]);
        assert(pair_views(pairs@) =~= page_pairs(ctx));
    }
    fill_template(PAGE_TEMPLATE, &pairs)
}

} // verus!
