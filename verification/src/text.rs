//! Texts as sequences of characters: classes of characters, scanning,
//! trimming, comparing without regard to case, and splitting into lines
//! and pieces.

use vstd::prelude::*;
use vstd::string::*;
use crate::views::lemma_deep_view_push;

verus! {

/// Code point of a character.
pub open spec fn code(c: char) -> nat {
    c as u32 as nat
}

/// White space: the characters that Unicode classes as `White_Space`.
pub open spec fn is_space(c: char) -> bool {
    let u = code(c);
    ||| 0x09 <= u <= 0x0D
    ||| u == 0x20
    ||| u == 0x85
    ||| u == 0xA0
    ||| u == 0x1680
    ||| 0x2000 <= u <= 0x200A
    ||| u == 0x2028
    ||| u == 0x2029
    ||| u == 0x202F
    ||| u == 0x205F
    ||| u == 0x3000
}

/// ASCII decimal digits.
pub open spec fn is_digit(c: char) -> bool {
    0x30 <= code(c) <= 0x39
}

/// A set of characters that a scan runs over.
#[derive(Clone, Copy, Debug)]
pub enum CharClass {
    /// White space.
    Space,
    /// ASCII decimal digits.
    Digit,
    /// The given character and no other.
    Only(char),
    /// Every character but the given one.
    Except(char),
}

impl CharClass {
    /// Membership of `c` in the class.
    pub open spec fn has(self, c: char) -> bool {
        match self {
            CharClass::Space => is_space(c),
            CharClass::Digit => is_digit(c),
            CharClass::Only(x) => c == x,
            CharClass::Except(x) => c != x,
        }
    }

    /// Tests whether `c` belongs to the class.
    pub fn contains(&self, c: char) -> (r: bool)
        ensures
            r == self.has(c),
    {
        let u: u32 = c as u32;
        match self {
            CharClass::Space => {
                (0x09 <= u && u <= 0x0D) || u == 0x20 || u == 0x85 || u == 0xA0 || u == 0x1680 || (
                0x2000 <= u && u <= 0x200A) || u == 0x2028 || u == 0x2029 || u == 0x202F || u
                    == 0x205F || u == 0x3000
            },
            CharClass::Digit => 0x30 <= u && u <= 0x39,
            CharClass::Only(x) => c == *x,
            CharClass::Except(x) => c != *x,
        }
    }
}

/// End of the longest run of characters of `class` that starts at `i`:
/// the first index from `i` on whose character is outside the class, or the
/// length of `s`.
pub open spec fn scan(s: Seq<char>, class: CharClass, i: int) -> int
    decreases s.len() - i,
{
    if 0 <= i < s.len() && class.has(s[i]) {
        scan(s, class, i + 1)
    } else {
        i
    }
}

/// Start of the longest run of characters of `class` that ends at `j`.
pub open spec fn scan_back(s: Seq<char>, class: CharClass, j: int) -> int
    decreases j,
{
    if 0 < j <= s.len() && class.has(s[j - 1]) {
        scan_back(s, class, j - 1)
    } else {
        j
    }
}

/// What `scan` returns, said without recursion.
pub proof fn lemma_scan(s: Seq<char>, class: CharClass, i: int)
    requires
        0 <= i <= s.len(),
    ensures
        i <= scan(s, class, i) <= s.len(),
        forall|k: int| i <= k < scan(s, class, i) ==> class.has(#[trigger] s[k]),
        scan(s, class, i) < s.len() ==> !class.has(s[scan(s, class, i)]),
    decreases s.len() - i,
{
    if i < s.len() && class.has(s[i]) {
        lemma_scan(s, class, i + 1);
    }
}

/// An index that bounds a run of `class` from `i` is where `scan` stops.
pub proof fn lemma_scan_is(s: Seq<char>, class: CharClass, i: int, e: int)
    requires
        0 <= i <= e <= s.len(),
        forall|k: int| i <= k < e ==> class.has(#[trigger] s[k]),
        e < s.len() ==> !class.has(s[e]),
    ensures
        scan(s, class, i) == e,
    decreases e - i,
{
    if i < e {
        lemma_scan_is(s, class, i + 1, e);
    }
}

/// What `scan_back` returns, said without recursion.
pub proof fn lemma_scan_back(s: Seq<char>, class: CharClass, j: int)
    requires
        0 <= j <= s.len(),
    ensures
        0 <= scan_back(s, class, j) <= j,
        forall|k: int| scan_back(s, class, j) <= k < j ==> class.has(#[trigger] s[k]),
        scan_back(s, class, j) > 0 ==> !class.has(s[scan_back(s, class, j) - 1]),
    decreases j,
{
    if 0 < j && class.has(s[j - 1]) {
        lemma_scan_back(s, class, j - 1);
    }
}

/// An index that bounds a run of `class` up to `j` is where `scan_back` stops.
pub proof fn lemma_scan_back_is(s: Seq<char>, class: CharClass, j: int, b: int)
    requires
        0 <= b <= j <= s.len(),
        forall|k: int| b <= k < j ==> class.has(#[trigger] s[k]),
        b > 0 ==> !class.has(s[b - 1]),
    ensures
        scan_back(s, class, j) == b,
    decreases j - b,
{
    if b < j {
        lemma_scan_back_is(s, class, j - 1, b);
    }
}

/// Scans `s`, whose length in characters is `len`, from `from` on for the end
/// of the run of `class`.
pub fn scan_from(s: &str, len: usize, from: usize, class: CharClass) -> (i: usize)
    requires
        len == s@.len(),
        from <= len,
    ensures
        i == scan(s@, class, from as int),
        from <= i <= len,
{
    let mut i: usize = from;
    while i < len && class.contains(s.get_char(i))
        invariant
            len == s@.len(),
            from <= i <= len,
            scan(s@, class, from as int) == scan(s@, class, i as int),
        decreases len - i,
    {
        i = i + 1;
    }
    proof {
        lemma_scan(s@, class, from as int);
    }
    i
}

/// Scans `s` backwards from `to` for the start of the run of `class`, not
/// going below `floor`.
pub fn scan_back_from(s: &str, floor: usize, to: usize, class: CharClass) -> (j: usize)
    requires
        floor <= to <= s@.len(),
    ensures
        j == if scan_back(s@, class, to as int) < floor {
            floor as int
        } else {
            scan_back(s@, class, to as int)
        },
        floor <= j <= to,
{
    let mut j: usize = to;
    while j > floor && class.contains(s.get_char(j - 1))
        invariant
            floor <= j <= to <= s@.len(),
            scan_back(s@, class, to as int) == scan_back(s@, class, j as int),
        decreases j,
    {
        j = j - 1;
    }
    proof {
        lemma_scan_back(s@, class, j as int);
    }
    j
}

/// Where the text of `s` begins once leading white space is dropped.
pub open spec fn trim_start_at(s: Seq<char>) -> int {
    scan(s, CharClass::Space, 0)
}

/// Where the text of `s` ends once trailing white space is dropped.
pub open spec fn trim_end_at(s: Seq<char>) -> int {
    let b = scan_back(s, CharClass::Space, s.len() as int);
    if b < trim_start_at(s) {
        trim_start_at(s)
    } else {
        b
    }
}

/// `s` without its leading and trailing white space.
pub open spec fn trimmed(s: Seq<char>) -> Seq<char> {
    s.subrange(trim_start_at(s), trim_end_at(s))
}

/// Removes leading and trailing white space.
pub fn trim(s: &str) -> (r: &str)
    ensures
        r@ == trimmed(s@),
{
    let len = s.unicode_len();
    let a = scan_from(s, len, 0, CharClass::Space);
    let b = scan_back_from(s, a, len, CharClass::Space);
    s.substring_char(a, b)
}

/// A trimmed text that is not empty begins and ends with a character that
/// is no white space.
pub proof fn lemma_trimmed_ends(s: Seq<char>)
    ensures
        trimmed(s).len() > 0 ==> !is_space(trimmed(s)[0]) && !is_space(trimmed(s).last()),
        trimmed(s).len() > 0 ==> trimmed(s).last() == s[trim_end_at(s) - 1],
        0 <= trim_start_at(s) <= trim_end_at(s) <= s.len(),
{
    lemma_scan(s, CharClass::Space, 0);
    lemma_scan_back(s, CharClass::Space, s.len() as int);
}

/// A text that has a character that is no white space is not empty when
/// trimmed.
pub proof fn lemma_trimmed_not_empty(s: Seq<char>, i: int)
    requires
        0 <= i < s.len(),
        !is_space(s[i]),
    ensures
        trimmed(s).len() > 0,
{
    lemma_scan(s, CharClass::Space, 0);
    lemma_scan_back(s, CharClass::Space, s.len() as int);
}

/// Trimming changes nothing in a text that begins and ends with a
/// character that is no white space.
pub proof fn lemma_trimmed_fixed(s: Seq<char>)
    requires
        s.len() > 0 ==> !is_space(s[0]) && !is_space(s.last()),
    ensures
        trimmed(s) == s,
{
    lemma_scan_is(s, CharClass::Space, 0, 0);
    lemma_scan_back_is(s, CharClass::Space, s.len() as int, s.len() as int);
}

/// Trimming takes a space off the front of a text that otherwise begins
/// and ends with a character that is no white space.
pub proof fn lemma_trimmed_after_space(s: Seq<char>)
    requires
        s.len() > 0,
        !is_space(s[0]),
        !is_space(s.last()),
    ensures
        trimmed(seq![' '] + s) == s,
{
    let t = seq![' '] + s;
    lemma_scan_is(t, CharClass::Space, 0, 1);
    lemma_scan_back_is(t, CharClass::Space, t.len() as int, t.len() as int);
}

/// A letter's code point with ASCII upper case mapped to lower case.
pub open spec fn fold_case(c: char) -> nat {
    let u = code(c);
    if 0x41 <= u <= 0x5A {
        u + 0x20
    } else {
        u
    }
}

/// Equality of two texts up to the case of ASCII letters.
pub open spec fn eq_ignore_case(a: Seq<char>, b: Seq<char>) -> bool {
    &&& a.len() == b.len()
    &&& forall|i: int| 0 <= i < a.len() ==> fold_case(#[trigger] a[i]) == fold_case(b[i])
}

/// Two texts that differ at one place beyond the case of ASCII letters are
/// not equal up to that case.
pub proof fn lemma_differ(a: Seq<char>, b: Seq<char>, i: int)
    requires
        0 <= i < a.len(),
        fold_case(a[i]) != fold_case(b[i]),
    ensures
        !eq_ignore_case(a, b),
{
}

fn fold(c: char) -> (u: u32)
    ensures
        u == fold_case(c),
{
    let u: u32 = c as u32;
    if 0x41 <= u && u <= 0x5A {
        u + 0x20
    } else {
        u
    }
}

/// Compares the first `n` characters of `a` with `b`, which has `n`
/// characters, up to the case of ASCII letters.
pub(crate) fn starts_with_ignore_case(a: &str, b: &str, n: usize) -> (r: bool)
    requires
        n == b@.len(),
        n <= a@.len(),
    ensures
        r == eq_ignore_case(a@.take(n as int), b@),
{
    let mut i: usize = 0;
    while i < n
        invariant
            n == b@.len(),
            n <= a@.len(),
            i <= n,
            forall|k: int| 0 <= k < i ==> fold_case(#[trigger] a@[k]) == fold_case(b@[k]),
        decreases n - i,
    {
        if fold(a.get_char(i)) != fold(b.get_char(i)) {
            assert(a@.take(n as int)[i as int] == a@[i as int]);
            return false;
        }
        i = i + 1;
    }
    true
}

/// Compares two texts up to the case of ASCII letters.
pub fn eq_ignore_ascii_case(a: &str, b: &str) -> (r: bool)
    ensures
        r == eq_ignore_case(a@, b@),
{
    let n = b.unicode_len();
    if a.unicode_len() != n {
        return false;
    }
    assert(a@.take(n as int) =~= a@);
    starts_with_ignore_case(a, b, n)
}

/// A line without the carriage return at its end, if it has one.
pub open spec fn strip_cr(l: Seq<char>) -> Seq<char> {
    if l.len() > 0 && l.last() == '\r' {
        l.drop_last()
    } else {
        l
    }
}

/// The lines of a text.  A line ends at a line feed; the line feed, and a
/// carriage return right before it, are not part of the line.  What follows
/// the last line feed is a line only where it is not empty.
pub open spec fn spec_lines(s: Seq<char>) -> Seq<Seq<char>>
    decreases s.len(),
{
    if s.len() == 0 {
        Seq::empty()
    } else {
        let i = scan(s, CharClass::Except('\n'), 0);
        if 0 <= i < s.len() {
            seq![strip_cr(s.take(i))] + spec_lines(s.skip(i + 1))
        } else {
            seq![s]
        }
    }
}

/// Splits a text into its lines.
pub fn lines<'a>(s: &'a str) -> (r: Vec<&'a str>)
    ensures
        r.deep_view() == spec_lines(s@),
{
    let mut r: Vec<&'a str> = Vec::new();
    let mut rest: &'a str = s;
    loop
        invariant_except_break
            spec_lines(s@) == r.deep_view() + spec_lines(rest@),
        ensures
            r.deep_view() == spec_lines(s@),
        decreases rest@.len(),
    {
        let ghost before = r;
        let len = rest.unicode_len();
        if len == 0 {
            break ;
        }
        let i = scan_from(rest, len, 0, CharClass::Except('\n'));
        if i == len {
            r.push(rest);
            proof {
                lemma_deep_view_push(before, r, rest);
            }
            break ;
        }
        let end = if i > 0 && rest.get_char(i - 1) == '\r' {
            i - 1
        } else {
            i
        };
        let line = rest.substring_char(0, end);
        let next = rest.substring_char(i + 1, len);
        assert(line@ =~= strip_cr(rest@.take(i as int)));
        r.push(line);
        proof {
            lemma_deep_view_push(before, r, line);
        }
        rest = next;
    }
    r
}

/// The pieces of a text between its spaces.  Two spaces in a row have an
/// empty piece between them, and a text without a space is its only piece.
pub open spec fn spec_split(s: Seq<char>) -> Seq<Seq<char>>
    decreases s.len(),
{
    let i = scan(s, CharClass::Except(' '), 0);
    if 0 <= i < s.len() {
        seq![s.take(i)] + spec_split(s.skip(i + 1))
    } else {
        seq![s]
    }
}

/// Splits a text at each of its spaces.
pub fn split(s: &str) -> (r: Vec<String>)
    ensures
        r.deep_view() == spec_split(s@),
{
    let mut r: Vec<String> = Vec::new();
    let mut rest: &str = s;
    loop
        invariant_except_break
            spec_split(s@) == r.deep_view() + spec_split(rest@),
        ensures
            r.deep_view() == spec_split(s@),
        decreases rest@.len(),
    {
        let ghost before = r;
        let len = rest.unicode_len();
        let i = scan_from(rest, len, 0, CharClass::Except(' '));
        if i < len {
            let piece = rest.substring_char(0, i).to_owned();
            let next = rest.substring_char(i + 1, len);
            r.push(piece);
            proof {
                lemma_deep_view_push(before, r, piece);
            }
            rest = next;
        } else {
            let piece = rest.to_owned();
            r.push(piece);
            proof {
                lemma_deep_view_push(before, r, piece);
            }
            break ;
        }
    }
    r
}

} // verus!
