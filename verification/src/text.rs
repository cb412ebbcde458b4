//! Text helpers shared by the panels: case folding, substring search and
//! concatenation over the `Seq<char>` view of strings.

use vstd::prelude::*;

verus! {

/// The lowercase form that `str::to_lowercase` gives a text. It follows the
/// Unicode case tables, so it is named here rather than written out.
pub uninterp spec fn lowercased(s: Seq<char>) -> Seq<char>;

/// `needle` stands in `haystack` starting at position `at`.
pub open spec fn occurs_at(needle: Seq<char>, haystack: Seq<char>, at: int) -> bool {
    &&& 0 <= at
    &&& at + needle.len() <= haystack.len()
    &&& haystack.subrange(at, at + needle.len()) == needle
}

/// `needle` stands somewhere in `haystack`. The empty text stands in every text.
pub open spec fn is_substring(needle: Seq<char>, haystack: Seq<char>) -> bool {
    exists|at: int| occurs_at(needle, haystack, at)
}

/// Calls `str::to_lowercase`. Trusted: the result is the lowercase form of the
/// argument, a function of the argument alone; and since every character
/// has a lowercase form of one or more characters, the result is at least
/// as long as the argument.
#[verifier::external_body]
pub(crate) fn to_lowercase(s: &str) -> (lower: String)
    ensures
        lower@ == lowercased(s@),
        lower@.len() >= s@.len(),
{
    s.to_lowercase()
}

/// Calls `str::contains` with a string pattern. Trusted: the answer is `true`
/// exactly when the pattern occurs as a contiguous run of the text.
#[verifier::external_body]
pub(crate) fn contains(haystack: &str, needle: &str) -> (found: bool)
    ensures
        found == is_substring(needle@, haystack@),
{
    haystack.contains(needle)
}

/// The character that writes a digit below ten.
pub open spec fn digit_char(d: nat) -> char {
    if d == 0 {
        '0'
    } else if d == 1 {
        '1'
    } else if d == 2 {
        '2'
    } else if d == 3 {
        '3'
    } else if d == 4 {
        '4'
    } else if d == 5 {
        '5'
    } else if d == 6 {
        '6'
    } else if d == 7 {
        '7'
    } else if d == 8 {
        '8'
    } else {
        '9'
    }
}

/// A number written in decimal, without sign or leading zeros.
pub open spec fn decimal(n: nat) -> Seq<char>
    decreases n,
{
    if n < 10 {
        seq![digit_char(n)]
    } else {
        decimal(n / 10).push(digit_char(n % 10))
    }
}

fn digit_text(d: usize) -> (t: &'static str)
    requires
        d < 10,
    ensures
        t@ == seq![digit_char(d as nat)],
{
    proof {
        reveal_strlit("0");
        reveal_strlit("1");
        reveal_strlit("2");
        reveal_strlit("3");
        reveal_strlit("4");
        reveal_strlit("5");
        reveal_strlit("6");
        reveal_strlit("7");
        reveal_strlit("8");
        reveal_strlit("9");
    }
    let t = if d == 0 {
        "0"
    } else if d == 1 {
        "1"
    } else if d == 2 {
        "2"
    } else if d == 3 {
        "3"
    } else if d == 4 {
        "4"
    } else if d == 5 {
        "5"
    } else if d == 6 {
        "6"
    } else if d == 7 {
        "7"
    } else if d == 8 {
        "8"
    } else {
        "9"
    };
    assert(t@ =~= seq![digit_char(d as nat)]);
    t
}

/// Writes a number in decimal.
pub fn decimal_string(n: usize) -> (written: String)
    ensures
        written@ == decimal(n as nat),
    decreases n,
{
    if n < 10 {
        String::from_str(digit_text(n))
    } else {
        let mut written = decimal_string(n / 10);
        written.append(digit_text(n % 10));
        assert(written@ =~= decimal((n / 10) as nat).push(digit_char((n % 10) as nat)));
        written
    }
}

/// Joins two texts.
pub fn join2(a: &str, b: &str) -> (joined: String)
    ensures
        joined@ == a@ + b@,
{
    let mut joined = String::from_str(a);
    joined.append(b);
    joined
}

/// Joins three texts.
pub fn join3(a: &str, b: &str, c: &str) -> (joined: String)
    ensures
        joined@ == a@ + b@ + c@,
{
    let mut joined = String::from_str(a);
    joined.append(b);
    joined.append(c);
    joined
}

/// Whether two texts hold the same characters.
pub fn same_text(a: &str, b: &str) -> (same: bool)
    ensures
        same == (a@ == b@),
{
    let left = String::from_str(a);
    let right = String::from_str(b);
    left == right
}

/// An ASCII capital letter turned into its small letter; every other
/// character as it is.
pub open spec fn ascii_lower(c: char) -> char {
    if 'A' <= c && c <= 'Z' {
        ((c as u32) + 32) as char
    } else {
        c
    }
}

/// Two texts are the same up to the case of their ASCII letters.
pub open spec fn same_ignoring_ascii_case(a: Seq<char>, b: Seq<char>) -> bool {
    &&& a.len() == b.len()
    &&& forall|i: int| 0 <= i < a.len() ==> ascii_lower(#[trigger] a[i]) == ascii_lower(b[i])
}

/// Calls `str::eq_ignore_ascii_case`. Trusted: the answer is `true` exactly
/// when the two texts agree once the ASCII letters of both are made small;
/// letters outside ASCII must agree as they stand.
#[verifier::external_body]
pub(crate) fn eq_ignore_ascii_case(a: &str, b: &str) -> (same: bool)
    ensures
        same == same_ignoring_ascii_case(a@, b@),
{
    a.eq_ignore_ascii_case(b)
}

/// A text with every occurrence of `from` replaced by `to`. Occurrences are
/// taken from left to right and do not overlap. Meant for a `from` that is
/// not empty.
pub open spec fn replaced(s: Seq<char>, from: Seq<char>, to: Seq<char>) -> Seq<char>
    decreases s.len(),
{
    if from.len() == 0 || s.len() < from.len() {
        s
    } else if s.subrange(0, from.len() as int) == from {
        to + replaced(s.subrange(from.len() as int, s.len() as int), from, to)
    } else {
        seq![s[0]] + replaced(s.subrange(1, s.len() as int), from, to)
    }
}

/// Calls `str::replace` with a string pattern. Trusted: for a pattern that
/// is not empty the result is the text with all matches of the pattern,
/// found from left to right without overlap, replaced by `to`.
#[verifier::external_body]
pub(crate) fn replace(s: &str, from: &str, to: &str) -> (out: String)
    requires
        from@.len() > 0,
    ensures
        out@ == replaced(s@, from@, to@),
{
    s.replace(from, to)
}

/// Whether a character is white space: whether it has the property
/// White_Space of the Unicode Character Database. These are the controls
/// U+0009 to U+000D and U+0085, the space, the no-break spaces U+00A0 and
/// U+202F, the Ogham space mark, the spaces U+2000 to U+200A, the line and
/// paragraph separators, the mathematical space U+205F and the ideographic
/// space.
pub open spec fn is_white_space(c: char) -> bool {
    let code = c as u32;
    ||| 0x0009 <= code <= 0x000D
    ||| code == 0x0020
    ||| code == 0x0085
    ||| code == 0x00A0
    ||| code == 0x1680
    ||| 0x2000 <= code <= 0x200A
    ||| code == 0x2028
    ||| code == 0x2029
    ||| code == 0x202F
    ||| code == 0x205F
    ||| code == 0x3000
}

/// Calls `char::is_whitespace`. Trusted: the answer is the White_Space
/// property of the character, as `is_white_space` lists it.
#[verifier::external_body]
pub(crate) fn char_is_whitespace(c: char) -> (white: bool)
    ensures
        white == is_white_space(c),
{
    c.is_whitespace()
}

/// A text without its leading and trailing white space.
pub open spec fn trimmed(s: Seq<char>) -> Seq<char>
    decreases s.len(),
{
    if s.len() == 0 {
        s
    } else if is_white_space(s.first()) {
        trimmed(s.drop_first())
    } else if is_white_space(s.last()) {
        trimmed(s.drop_last())
    } else {
        s
    }
}

/// Law of trimming. The result is a run of the text, which the lemma
/// hands back the start of; it is empty or begins and ends with a
/// character that is not white space; and what stands before and behind it
/// in the text is white space only.
pub proof fn lemma_trimmed(s: Seq<char>) -> (from: int)
    ensures
        0 <= from,
        from + trimmed(s).len() <= s.len(),
        s.subrange(from, from + trimmed(s).len()) == trimmed(s),
        forall|i: int| 0 <= i < from ==> is_white_space(#[trigger] s[i]),
        forall|i: int| from + trimmed(s).len() <= i < s.len() ==> is_white_space(#[trigger] s[i]),
        trimmed(s).len() > 0 ==> !is_white_space(trimmed(s).first()) && !is_white_space(
            trimmed(s).last(),
        ),
    decreases s.len(),
{
    let t = trimmed(s);
    if s.len() == 0 {
        assert(s.subrange(0, 0) =~= t);
        0
    } else if is_white_space(s.first()) {
        let rest = s.drop_first();
        let from = lemma_trimmed(rest);
        assert(s.subrange(from + 1, from + 1 + t.len()) =~= rest.subrange(from, from + t.len()));
        assert forall|i: int| 0 <= i < from + 1 implies is_white_space(#[trigger] s[i]) by {
            if i > 0 {
                assert(s[i] == rest[i - 1]);
            }
        }
        assert forall|i: int| from + 1 + t.len() <= i < s.len() implies is_white_space(
            #[trigger] s[i],
        ) by {
            assert(s[i] == rest[i - 1]);
        }
        from + 1
    } else if is_white_space(s.last()) {
        let rest = s.drop_last();
        let from = lemma_trimmed(rest);
        assert(s.subrange(from, from + t.len()) =~= rest.subrange(from, from + t.len()));
        assert forall|i: int| 0 <= i < from implies is_white_space(#[trigger] s[i]) by {
            assert(s[i] == rest[i]);
        }
        assert forall|i: int| from + t.len() <= i < s.len() implies is_white_space(
            #[trigger] s[i],
        ) by {
            if i < rest.len() {
                assert(s[i] == rest[i]);
            }
        }
        from
    } else {
        assert(s.subrange(0, s.len() as int) =~= t);
        0
    }
}

/// Cuts the leading and trailing white space off a text.
pub fn trim(s: &str) -> (t: &str)
    ensures
        t@ == trimmed(s@),
{
    let n = s.unicode_len();
    let mut start: usize = 0;
    let mut scanning = true;
    assert(s@.subrange(0, n as int) =~= s@);
    while scanning && start < n
        invariant
            start <= n,
            n == s@.len(),
            trimmed(s@) == trimmed(s@.subrange(start as int, n as int)),
            !scanning ==> start < n && !is_white_space(s@[start as int]),
        decreases n - start + if scanning { 1int } else { 0int },
    {
        if char_is_whitespace(s.get_char(start)) {
            assert(s@.subrange(start as int, n as int).drop_first() =~= s@.subrange(
                start + 1,
                n as int,
            ));
            start += 1;
        } else {
            scanning = false;
        }
    }
    let mut end: usize = n;
    scanning = true;
    while scanning && start < end
        invariant
            start <= end <= n,
            n == s@.len(),
            trimmed(s@) == trimmed(s@.subrange(start as int, end as int)),
            start < end ==> !is_white_space(s@[start as int]),
            !scanning ==> start < end && !is_white_space(s@[end - 1]),
        decreases end - start + if scanning { 1int } else { 0int },
    {
        if char_is_whitespace(s.get_char(end - 1)) {
            assert(s@.subrange(start as int, end as int).drop_last() =~= s@.subrange(
                start as int,
                end - 1,
            ));
            end -= 1;
        } else {
            scanning = false;
        }
    }
    s.substring_char(start, end)
}

/// The value of a character that is an ASCII digit.
pub open spec fn digit_value(c: char) -> nat {
    (c as u32 - '0' as u32) as nat
}

/// Whether a text is one or more ASCII digits.
pub open spec fn all_digits(s: Seq<char>) -> bool {
    &&& s.len() > 0
    &&& forall|i: int| 0 <= i < s.len() ==> '0' <= #[trigger] s[i] && s[i] <= '9'
}

/// The number that a text of ASCII digits writes in decimal.
pub open spec fn digits_value(s: Seq<char>) -> nat
    decreases s.len(),
{
    if s.len() == 0 {
        0
    } else {
        digits_value(s.drop_last()) * 10 + digit_value(s.last())
    }
}

/// The digits of a text that may carry one leading plus sign.
pub open spec fn unsigned_digits(s: Seq<char>) -> Seq<char> {
    if s.len() > 0 && s[0] == '+' {
        s.drop_first()
    } else {
        s
    }
}

/// What a text reads as a number from 0 to 255: an optional plus sign
/// followed by ASCII digits only, whose value fits. Spaces, a minus sign,
/// other characters and the empty text read as nothing.
pub open spec fn parsed_u8(s: Seq<char>) -> Option<u8> {
    if all_digits(unsigned_digits(s)) && digits_value(unsigned_digits(s)) <= 255 {
        Some(digits_value(unsigned_digits(s)) as u8)
    } else {
        None
    }
}

/// Calls `str::parse::<u8>`. Trusted: the text is read as an optional plus
/// sign followed by decimal digits only; anything else, and a value above
/// 255, is an error, which the wrapper hands on as `None`.
#[verifier::external_body]
pub(crate) fn parse_u8(s: &str) -> (value: Option<u8>)
    ensures
        value == parsed_u8(s@),
{
    s.parse::<u8>().ok()
}

/// A text tagged with a number: the number in decimal, a hyphen, the text.
pub open spec fn tagged(n: nat, label: Seq<char>) -> Seq<char> {
    decimal(n) + seq!['-'] + label
}

/// A number in decimal is one or more ASCII digits.
pub proof fn lemma_decimal_is_digits(n: nat)
    ensures
        decimal(n).len() >= 1,
        forall|i: int| 0 <= i < decimal(n).len() ==> '0' <= #[trigger] decimal(n)[i] && decimal(n)[i] <= '9',
    decreases n,
{
    if n >= 10 {
        lemma_decimal_is_digits(n / 10);
    }
}

/// Law: different numbers are written differently.
pub proof fn lemma_decimal_distinct(a: nat, b: nat)
    requires
        a != b,
    ensures
        decimal(a) != decimal(b),
    decreases a,
{
    lemma_decimal_is_digits(a / 10);
    lemma_decimal_is_digits(b / 10);
    if a >= 10 && b >= 10 {
        if a / 10 != b / 10 {
            lemma_decimal_distinct(a / 10, b / 10);
            if decimal(a) == decimal(b) {
                assert(decimal(a).drop_last() =~= decimal(a / 10));
                assert(decimal(b).drop_last() =~= decimal(b / 10));
            }
        } else {
            assert(a % 10 != b % 10);
            assert(decimal(a).last() == digit_char(a % 10));
            assert(decimal(b).last() == digit_char(b % 10));
        }
    } else if a < 10 && b < 10 {
        assert(decimal(a)[0] == digit_char(a));
        assert(decimal(b)[0] == digit_char(b));
    } else if a < 10 {
        assert(decimal(a).len() == 1);
        assert(decimal(b).len() == decimal(b / 10).len() + 1);
    } else {
        assert(decimal(b).len() == 1);
        assert(decimal(a).len() == decimal(a / 10).len() + 1);
    }
}

/// Law: texts tagged with different numbers differ, whatever the texts.
pub proof fn lemma_tagged_distinct(a: nat, x: Seq<char>, b: nat, y: Seq<char>)
    requires
        a != b,
    ensures
        tagged(a, x) != tagged(b, y),
{
    let da = decimal(a);
    let db = decimal(b);
    lemma_decimal_is_digits(a);
    lemma_decimal_is_digits(b);
    lemma_decimal_distinct(a, b);
    if tagged(a, x) == tagged(b, y) {
        if da.len() < db.len() {
            assert(tagged(a, x)[da.len() as int] == '-');
            assert(tagged(b, y)[da.len() as int] == db[da.len() as int]);
        } else if db.len() < da.len() {
            assert(tagged(b, y)[db.len() as int] == '-');
            assert(tagged(a, x)[db.len() as int] == da[db.len() as int]);
        } else {
            assert forall|i: int| 0 <= i < da.len() implies da[i] == db[i] by {
                assert(tagged(a, x)[i] == da[i]);
                assert(tagged(b, y)[i] == db[i]);
            }
            assert(da =~= db);
        }
    }
}

/// Tags a text with a number.
pub fn tag(n: usize, label: &str) -> (out: String)
    ensures
        out@ == tagged(n as nat, label@),
{
    proof {
        reveal_strlit("-");
        assert("-"@ =~= seq!['-']);
    }
    let number = decimal_string(n);
    join3(number.as_str(), "-", label)
}

} // verus!
