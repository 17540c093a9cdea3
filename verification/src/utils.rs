//! Lexical helpers: the small parsers that the grammar of the directives is
//! assembled from.  Each takes what it recognizes from the start of a text
//! and returns what follows together with what it took.

use vstd::prelude::*;
use vstd::string::*;
use crate::decimal::digits_to_u64;
use crate::decimal::digits_value;
use crate::decimal::lemma_decimal_len;
use crate::decimal::lemma_digits_value_bound;
use crate::decimal::lemma_padded;
use crate::decimal::lemma_scan_digits;
use crate::decimal::padded;
use crate::decimal::pow10;
use crate::text::CharClass;
use crate::text::eq_ignore_case;
use crate::text::is_digit;
use crate::text::lemma_scan;
use crate::text::lemma_scan_is;
use crate::text::scan;
use crate::text::scan_from;
use crate::text::starts_with_ignore_case;

verus! {

/// The keyword `kd` at the start of `s`, in any case of its ASCII letters,
/// and one space behind it: what follows the space, and the keyword as `s`
/// spells it.
pub open spec fn spec_keyword(kd: Seq<char>, s: Seq<char>) -> Option<(Seq<char>, Seq<char>)> {
    let n = kd.len() as int;
    if s.len() > n && eq_ignore_case(s.take(n), kd) && s[n] == ' ' {
        Some((s.skip(n + 1), s.take(n)))
    } else {
        None
    }
}

/// Matches the keyword `kd` and the space behind it at the start of `s`.
///
/// Returns what follows the space and the keyword as spelled in `s`.
pub fn keyword<'a>(kd: &str, s: &'a str) -> (r: Option<(&'a str, &'a str)>)
    ensures
        match spec_keyword(kd@, s@) {
            Some((rest, word)) => r matches Some((x, y)) && x@ == rest && y@ == word,
            None => r is None,
        },
{
    let n = kd.unicode_len();
    let len = s.unicode_len();
    if len <= n {
        return None;
    }
    if !starts_with_ignore_case(s, kd, n) {
        return None;
    }
    if s.get_char(n) != ' ' {
        return None;
    }
    Some((s.substring_char(n + 1, len), s.substring_char(0, n)))
}

/// The text before the first space of `s`, and what follows that space.
pub open spec fn spec_token(s: Seq<char>) -> Option<(Seq<char>, Seq<char>)> {
    let i = scan(s, CharClass::Except(' '), 0);
    if i < s.len() {
        Some((s.skip(i + 1), s.take(i)))
    } else {
        None
    }
}

/// Splits `s` at its first space into what follows it and what precedes it.
/// There is no token where `s` has no space.
pub fn token<'a>(s: &'a str) -> (r: Option<(&'a str, &'a str)>)
    ensures
        match spec_token(s@) {
            Some((rest, word)) => r matches Some((x, y)) && x@ == rest && y@ == word,
            None => r is None,
        },
{
    let len = s.unicode_len();
    let i = scan_from(s, len, 0, CharClass::Except(' '));
    if i < len {
        Some((s.substring_char(i + 1, len), s.substring_char(0, i)))
    } else {
        None
    }
}

/// The token of a text that is made of a word without a space, a space,
/// and the rest.
pub proof fn lemma_token(word: Seq<char>, rest: Seq<char>)
    requires
        forall|i: int| 0 <= i < word.len() ==> #[trigger] word[i] != ' ',
    ensures
        scan(word + seq![' '] + rest, CharClass::Except(' '), 0) == word.len(),
        spec_token(word + seq![' '] + rest) == Some((rest, word)),
{
    let t = word + seq![' '] + rest;
    lemma_scan_is(t, CharClass::Except(' '), 0, word.len() as int);
}

/// A text in double quotes at the start of `s`: what follows the closing
/// quote, and the text between the quotes.  The closing quote is the first
/// one after the opening quote.
pub open spec fn spec_quote(s: Seq<char>) -> Option<(Seq<char>, Seq<char>)> {
    if s.len() > 0 && s[0] == '"' {
        let j = scan(s, CharClass::Except('"'), 1);
        if j < s.len() {
            Some((s.skip(j + 1), s.subrange(1, j)))
        } else {
            None
        }
    } else {
        None
    }
}

/// Takes a text in double quotes from the start of `s`.
///
/// Returns what follows the closing quote and the text between the quotes.
pub fn quote<'a>(s: &'a str) -> (r: Option<(&'a str, &'a str)>)
    ensures
        match spec_quote(s@) {
            Some((rest, inner)) => r matches Some((x, y)) && x@ == rest && y@ == inner,
            None => r is None,
        },
{
    let len = s.unicode_len();
    if len == 0 || s.get_char(0) != '"' {
        return None;
    }
    let j = scan_from(s, len, 1, CharClass::Except('"'));
    if j < len {
        Some((s.substring_char(j + 1, len), s.substring_char(1, j)))
    } else {
        None
    }
}

/// `s` holds no double quote.
pub open spec fn quote_free(s: Seq<char>) -> bool {
    scan(s, CharClass::Except('"'), 0) == s.len()
}

/// What `quote_free` says, character by character.
pub proof fn lemma_quote_free(s: Seq<char>)
    ensures
        quote_free(s) <==> forall|i: int| 0 <= i < s.len() ==> #[trigger] s[i] != '"',
{
    lemma_scan(s, CharClass::Except('"'), 0);
    if forall|i: int| 0 <= i < s.len() ==> #[trigger] s[i] != '"' {
        lemma_scan_is(s, CharClass::Except('"'), 0, s.len() as int);
    }
}

/// Reading back a text without quotes that was put in quotes, with
/// something behind it.
pub proof fn lemma_quote(name: Seq<char>, rest: Seq<char>)
    requires
        quote_free(name),
    ensures
        spec_quote(seq!['"'] + name + seq!['"'] + rest) == Some((rest, name)),
{
    let t = seq!['"'] + name + seq!['"'] + rest;
    lemma_quote_free(name);
    lemma_scan_is(t, CharClass::Except('"'), 1, 1 + name.len() as int);
}

/// The text between the quotes of `spec_quote` has no quote.
pub proof fn lemma_quote_inner(s: Seq<char>)
    ensures
        spec_quote(s) matches Some((_, inner)) ==> quote_free(inner),
{
    if spec_quote(s) is Some {
        lemma_scan(s, CharClass::Except('"'), 1);
        let j = scan(s, CharClass::Except('"'), 1);
        let inner = s.subrange(1, j);
        lemma_quote_free(inner);
    }
}

/// A value that may stand in double quotes: the text between the first and
/// the last character where both are quotes, `s` itself where it holds no
/// quote at all, and nothing otherwise.  Quotes inside a quoted text are
/// kept as they are.
pub open spec fn spec_quote_opt(s: Seq<char>) -> Option<Seq<char>> {
    if s.len() >= 2 && s[0] == '"' && s.last() == '"' {
        Some(s.subrange(1, s.len() - 1))
    } else if quote_free(s) {
        Some(s)
    } else {
        None
    }
}

/// Strips the pair of double quotes around `s`, or returns `s` as it is
/// where it has no quote.  A quote that is not part of such a pair is
/// refused.
pub fn quote_opt<'a>(s: &'a str) -> (r: Option<&'a str>)
    ensures
        match spec_quote_opt(s@) {
            Some(v) => r matches Some(x) && x@ == v,
            None => r is None,
        },
{
    let len = s.unicode_len();
    if len >= 2 && s.get_char(0) == '"' && s.get_char(len - 1) == '"' {
        return Some(s.substring_char(1, len - 1));
    }
    let i = scan_from(s, len, 0, CharClass::Except('"'));
    if i == len {
        Some(s)
    } else {
        None
    }
}

/// Reading back a value that was put in quotes.
pub proof fn lemma_quote_opt_quoted(v: Seq<char>)
    ensures
        spec_quote_opt(seq!['"'] + v + seq!['"']) == Some(v),
{
}

/// Reading back a value without quotes.
pub proof fn lemma_quote_opt_bare(v: Seq<char>)
    requires
        quote_free(v),
    ensures
        spec_quote_opt(v) == Some(v),
{
    lemma_quote_free(v);
}

/// The character `c` at the start of `s`: what follows it.
pub open spec fn spec_strip_char(c: char, s: Seq<char>) -> Option<Seq<char>> {
    if s.len() > 0 && s[0] == c {
        Some(s.skip(1))
    } else {
        None
    }
}

/// Takes the character `c` from the start of `s` and returns what follows.
pub fn strip_char<'a>(c: char, s: &'a str) -> (r: Option<&'a str>)
    ensures
        match spec_strip_char(c, s@) {
            Some(rest) => r matches Some(x) && x@ == rest,
            None => r is None,
        },
{
    let len = s.unicode_len();
    if len > 0 && s.get_char(0) == c {
        Some(s.substring_char(1, len))
    } else {
        None
    }
}

/// A run of one or more decimal digits at the start of `s` whose number
/// fits in 64 bits: what follows the run, and the number.
pub open spec fn spec_digit1(s: Seq<char>) -> Option<(Seq<char>, u64)> {
    let k = scan(s, CharClass::Digit, 0);
    if k >= 1 && digits_value(s.take(k)) <= u64::MAX {
        Some((s.skip(k), digits_value(s.take(k)) as u64))
    } else {
        None
    }
}

/// Takes the run of decimal digits from the start of `s` and reads it as a
/// number.
///
/// Returns what follows the run and the number.  There is no number where
/// `s` does not start with a digit or where the number does not fit in 64
/// bits.
pub fn digit1<'a>(s: &'a str) -> (r: Option<(&'a str, u64)>)
    ensures
        match spec_digit1(s@) {
            Some((rest, v)) => r matches Some((x, y)) && x@ == rest && y == v,
            None => r is None,
        },
{
    let len = s.unicode_len();
    let k = scan_from(s, len, 0, CharClass::Digit);
    if k == 0 {
        return None;
    }
    proof {
        lemma_scan(s@, CharClass::Digit, 0);
    }
    match digits_to_u64(s, k) {
        Some(v) => Some((s.substring_char(k, len), v)),
        None => None,
    }
}

/// Reading back a padded number that is followed by something that does
/// not begin with a digit.
pub proof fn lemma_digit1_padded(n: nat, width: nat, rest: Seq<char>)
    requires
        n <= u64::MAX,
        rest.len() == 0 || !is_digit(rest[0]),
    ensures
        spec_digit1(padded(n, width) + rest) == Some((rest, n as u64)),
{
    lemma_padded(n, width);
    lemma_scan_digits(padded(n, width), rest);
}

/// A run of exactly `n` decimal digits at the start of `s`, `n` at least 1,
/// whose number fits in 64 bits: what follows the run, and the number.
pub open spec fn spec_number(n: nat, s: Seq<char>) -> Option<(Seq<char>, u64)> {
    if scan(s, CharClass::Digit, 0) == n {
        spec_digit1(s)
    } else {
        None
    }
}

/// Takes a run of exactly `n` decimal digits from the start of `s` and reads
/// it as a number.
///
/// Returns what follows the run and the number.  There is no number where
/// the run of digits at the start of `s` is shorter or longer than `n`,
/// where `n` is 0, or where the number does not fit in 64 bits.
pub fn number<'a>(n: usize, s: &'a str) -> (r: Option<(&'a str, u64)>)
    ensures
        match spec_number(n as nat, s@) {
            Some((rest, v)) => r matches Some((x, y)) && x@ == rest && y == v,
            None => r is None,
        },
{
    let len = s.unicode_len();
    if scan_from(s, len, 0, CharClass::Digit) != n {
        return None;
    }
    digit1(s)
}

/// A number of `n` digits is below the `n`th power of ten.
pub proof fn lemma_number_bound(n: nat, s: Seq<char>)
    ensures
        spec_number(n, s) matches Some((_, v)) ==> v < pow10(n),
{
    if spec_number(n, s) is Some {
        lemma_scan(s, CharClass::Digit, 0);
        lemma_digits_value_bound(s.take(n as int));
    }
}

/// A number of two digits is at most 99.
pub proof fn lemma_number_two_digits(s: Seq<char>)
    ensures
        spec_number(2, s) matches Some((_, v)) ==> v <= 99,
{
    lemma_number_bound(2, s);
    reveal_with_fuel(pow10, 3);
}

/// Reading back a padded number of `width` digits that is followed by
/// something that does not begin with a digit.
pub proof fn lemma_number_padded(n: nat, width: nat, rest: Seq<char>)
    requires
        width >= 1,
        n < pow10(width),
        n <= u64::MAX,
        rest.len() == 0 || !is_digit(rest[0]),
    ensures
        spec_number(width, padded(n, width) + rest) == Some((rest, n as u64)),
{
    lemma_padded(n, width);
    lemma_decimal_len(n, width);
    lemma_scan_digits(padded(n, width), rest);
}

} // verus!
