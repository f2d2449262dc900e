//! Text as sequences of characters: the vocabulary in which the contracts of this
//! crate speak about strings, and the few operations of `str` that the crate calls.

use vstd::prelude::*;
use vstd::string::StringExecFns;

verus! {

/// `needle` stands in `hay` at position `i`.
pub open spec fn occurs_at(hay: Seq<char>, needle: Seq<char>, i: int) -> bool {
    &&& 0 <= i
    &&& i + needle.len() <= hay.len()
    &&& hay.subrange(i, i + needle.len()) == needle
}

/// `needle` is a contiguous part of `hay`.
pub open spec fn has_substring(hay: Seq<char>, needle: Seq<char>) -> bool {
    exists|i: int| occurs_at(hay, needle, i)
}

/// `s` begins with `prefix`.
pub open spec fn has_prefix(s: Seq<char>, prefix: Seq<char>) -> bool {
    occurs_at(s, prefix, 0)
}

/// `s` with every occurrence of `from` replaced by `to`. Occurrences are taken from
/// left to right and do not overlap. With an empty `from` nothing is replaced.
pub open spec fn replace_all(s: Seq<char>, from: Seq<char>, to: Seq<char>) -> Seq<char>
    decreases s.len(),
{
    if from.len() == 0 || s.len() < from.len() {
        s
    } else if occurs_at(s, from, 0) {
        to + replace_all(s.skip(from.len() as int), from, to)
    } else {
        seq![s[0]] + replace_all(s.skip(1), from, to)
    }
}

/// Whether `c` has the Unicode property `White_Space`: it is one of the 25 code
/// points that the Unicode Character Database lists for it.
pub open spec fn is_white_space(c: char) -> bool {
    let n = c as u32;
    ||| 0x09 <= n <= 0x0D
    ||| n == 0x20
    ||| n == 0x85
    ||| n == 0xA0
    ||| n == 0x1680
    ||| 0x2000 <= n <= 0x200A
    ||| n == 0x2028
    ||| n == 0x2029
    ||| n == 0x202F
    ||| n == 0x205F
    ||| n == 0x3000
}

/// `s` without its leading white space.
pub open spec fn trim_start(s: Seq<char>) -> Seq<char>
    decreases s.len(),
{
    if s.len() > 0 && is_white_space(s[0]) {
        trim_start(s.skip(1))
    } else {
        s
    }
}

/// `s` without its trailing white space.
pub open spec fn trim_end(s: Seq<char>) -> Seq<char>
    decreases s.len(),
{
    if s.len() > 0 && is_white_space(s.last()) {
        trim_end(s.drop_last())
    } else {
        s
    }
}

/// `s` without its leading and trailing white space.
pub open spec fn trim(s: Seq<char>) -> Seq<char> {
    trim_end(trim_start(s))
}

/// The code of `c`, with the code of the small letter for an ASCII capital letter.
pub open spec fn ascii_lower_code(c: char) -> int {
    let n = c as u32;
    if 0x41 <= n <= 0x5A {
        n + 0x20
    } else {
        n as int
    }
}

/// `a` and `b` are the same text but for the case of their ASCII letters.
pub open spec fn eq_ignoring_ascii_case(a: Seq<char>, b: Seq<char>) -> bool {
    &&& a.len() == b.len()
    &&& forall|i: int| 0 <= i < a.len() ==> ascii_lower_code(a[i]) == ascii_lower_code(b[i])
}

/// The decimal digit `d` as a character.
pub open spec fn digit_char(d: int) -> char
    recommends
        0 <= d <= 9,
{
    if d == 0 {
        '0'
    } else if d == 1 {
        '1'
    } else if d == 2 {
        '2'
    } else if d == 3 {
        '3'
    } else if d == 4 {
        '4'
    } else if d == 5 {
        '5'
    } else if d == 6 {
        '6'
    } else if d == 7 {
        '7'
    } else if d == 8 {
        '8'
    } else {
        '9'
    }
}

/// `n` written in decimal, without leading zeros.
pub open spec fn decimal(n: nat) -> Seq<char>
    decreases n,
{
    if n < 10 {
        seq![digit_char(n as int)]
    } else {
        decimal(n / 10).push(digit_char((n % 10) as int))
    }
}

/// A text in which `from` does not occur is left as it is.
pub proof fn lemma_replace_all_without_occurrence(s: Seq<char>, from: Seq<char>, to: Seq<char>)
    requires
        !has_substring(s, from),
    ensures
        replace_all(s, from, to) == s,
    decreases s.len(),
{
    if from.len() > 0 && s.len() >= from.len() {
        let rest = s.skip(1);
        assert(!has_substring(rest, from)) by {
            if has_substring(rest, from) {
                let i = choose|i: int| occurs_at(rest, from, i);
                assert(s.subrange(i + 1, i + 1 + from.len()) =~= rest.subrange(i, i + from.len()));
                assert(occurs_at(s, from, i + 1));
            }
        }
        lemma_replace_all_without_occurrence(rest, from, to);
    }
}

/// Replacing a text by itself changes nothing.
pub proof fn lemma_replace_all_by_itself(s: Seq<char>, from: Seq<char>)
    ensures
        replace_all(s, from, from) == s,
    decreases s.len(),
{
    if from.len() > 0 && s.len() >= from.len() {
        if occurs_at(s, from, 0) {
            let rest = s.skip(from.len() as int);
            lemma_replace_all_by_itself(rest, from);
        } else {
            lemma_replace_all_by_itself(s.skip(1), from);
        }
    }
}

/// Where `from` stands at the front of a text, the replacement stands at the front
/// of the result, and what follows is the rest of the text with its occurrences
/// replaced.
pub proof fn lemma_replace_all_at_front(rest: Seq<char>, from: Seq<char>, to: Seq<char>)
    requires
        from.len() > 0,
    ensures
        replace_all(from + rest, from, to) == to + replace_all(rest, from, to),
{
    let s = from + rest;
    assert(s.subrange(0, from.len() as int) =~= from);
    assert(s.skip(from.len() as int) =~= rest);
}

/// A text without occurrence of `from`, then `from`, then any text: the first part
/// stays, provided that `from` cannot begin inside it, and the occurrence after it
/// is replaced.
pub proof fn lemma_replace_all_after_prefix(
    before: Seq<char>,
    rest: Seq<char>,
    from: Seq<char>,
    to: Seq<char>,
)
    requires
        from.len() > 0,
        forall|i: int| 0 <= i < before.len() ==> !occurs_at(before + from + rest, from, i),
    ensures
        replace_all(before + from + rest, from, to) == before + to + replace_all(rest, from, to),
    decreases before.len(),
{
    let s = before + from + rest;
    if before.len() == 0 {
        lemma_replace_all_at_front(rest, from, to);
    } else {
        let shorter = before.skip(1);
        assert(s.skip(1) =~= shorter + from + rest);
        assert forall|i: int| 0 <= i < shorter.len() implies !occurs_at(
            shorter + from + rest,
            from,
            i,
        ) by {
            if occurs_at(shorter + from + rest, from, i) {
                assert(s.subrange(i + 1, i + 1 + from.len()) =~= (shorter + from + rest).subrange(
                    i,
                    i + from.len(),
                ));
                assert(occurs_at(s, from, i + 1));
            }
        }
        lemma_replace_all_after_prefix(shorter, rest, from, to);
    }
}

/// `str::trim`: the slice that is left when the leading and the trailing characters
/// with the Unicode property `White_Space` are taken away.
#[verifier::external_body]
pub(crate) fn str_trim(s: &str) -> (r: &str)
    ensures
        r@ == trim(s@),
{
    s.trim()
}

/// `str::contains` with a string pattern: whether the pattern is a contiguous part
/// of the text.
#[verifier::external_body]
pub(crate) fn str_contains(hay: &str, needle: &str) -> (b: bool)
    ensures
        b == has_substring(hay@, needle@),
{
    hay.contains(needle)
}

/// `str::starts_with` with a string pattern: whether the text begins with the pattern.
#[verifier::external_body]
pub(crate) fn str_starts_with(s: &str, prefix: &str) -> (b: bool)
    ensures
        b == has_prefix(s@, prefix@),
{
    s.starts_with(prefix)
}

/// `str::replace` with a non-empty string pattern: a new string in which every match
/// of the pattern, found from left to right without overlap, is the replacement.
#[verifier::external_body]
pub(crate) fn str_replace(s: &str, from: &str, to: &str) -> (r: String)
    requires
        from@.len() > 0,
    ensures
        r@ == replace_all(s@, from@, to@),
{
    s.replace(from, to)
}

/// `str == str`: whether two texts hold the same characters.
#[verifier::external_body]
pub(crate) fn str_eq(a: &str, b: &str) -> (r: bool)
    ensures
        r == (a@ == b@),
{
    a == b
}

/// `str::eq_ignore_ascii_case`: whether two texts match once the ASCII capital
/// letters of both count as small ones. Every other character must be the same.
#[verifier::external_body]
pub(crate) fn str_eq_ignore_ascii_case(a: &str, b: &str) -> (r: bool)
    ensures
        r == eq_ignoring_ascii_case(a@, b@),
{
    a.eq_ignore_ascii_case(b)
}

/// The one-character text of a decimal digit.
fn digit_str(d: u16) -> (r: &'static str)
    requires
        d <= 9,
    ensures
        r@ == seq![digit_char(d as int)],
{
    proof {
        reveal_strlit("0");
        reveal_strlit("1");
        reveal_strlit("2");
        reveal_strlit("3");
        reveal_strlit("4");
        reveal_strlit("5");
        reveal_strlit("6");
        reveal_strlit("7");
        reveal_strlit("8");
        reveal_strlit("9");
    }
    let r = if d == 0 {
        "0"
    } else if d == 1 {
        "1"
    } else if d == 2 {
        "2"
    } else if d == 3 {
        "3"
    } else if d == 4 {
        "4"
    } else if d == 5 {
        "5"
    } else if d == 6 {
        "6"
    } else if d == 7 {
        "7"
    } else if d == 8 {
        "8"
    } else {
        "9"
    };
    r
}

/// Writes `n` in decimal.
pub fn u16_to_decimal(n: u16) -> (r: String)
    ensures
        r@ == decimal(n as nat),
    decreases n,
{
    if n < 10 {
        String::from_str(digit_str(n))
    } else {
        let mut r = u16_to_decimal(n / 10);
        r.append(digit_str(n % 10));
        r
    }
}

/// `a` followed by `b`.
pub fn concat2(a: &str, b: &str) -> (r: String)
    ensures
        r@ == a@ + b@,
{
    let mut r = String::from_str(a);
    r.append(b);
    r
}

} // verus!
