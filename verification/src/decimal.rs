//! Numbers in decimal: what a text of digits denotes, and how a number is
//! written, with or without zeros in front.

use vstd::prelude::*;
use vstd::string::*;
use crate::text::CharClass;
use crate::text::code;
use crate::text::is_digit;
use crate::text::lemma_scan_is;
use crate::text::scan;

verus! {

/// Value of a decimal digit.
pub open spec fn digit_value(c: char) -> nat {
    (code(c) - 0x30) as nat
}

/// The number that a text of decimal digits denotes.
pub open spec fn digits_value(s: Seq<char>) -> nat
    decreases s.len(),
{
    if s.len() == 0 {
        0
    } else {
        digits_value(s.drop_last()) * 10 + digit_value(s.last())
    }
}

/// Every character of `s` is a decimal digit.
pub open spec fn all_digits(s: Seq<char>) -> bool {
    forall|i: int| 0 <= i < s.len() ==> is_digit(#[trigger] s[i])
}

/// The character of a decimal digit.
pub open spec fn digit_char(d: nat) -> char {
    if d == 0 {
        '0'
    } else if d == 1 {
        '1'
    } else if d == 2 {
        '2'
    } else if d == 3 {
        '3'
    } else if d == 4 {
        '4'
    } else if d == 5 {
        '5'
    } else if d == 6 {
        '6'
    } else if d == 7 {
        '7'
    } else if d == 8 {
        '8'
    } else {
        '9'
    }
}

/// A number in decimal, without leading zeros.
pub open spec fn decimal(n: nat) -> Seq<char>
    decreases n,
{
    if n < 10 {
        seq![digit_char(n)]
    } else {
        decimal(n / 10).push(digit_char(n % 10))
    }
}

/// `k` zeros.
pub open spec fn zeros(k: nat) -> Seq<char> {
    Seq::new(k, |i: int| '0')
}

/// A number in decimal, with zeros in front up to `width` characters.
pub open spec fn padded(n: nat, width: nat) -> Seq<char> {
    let d = decimal(n);
    if d.len() < width {
        zeros((width - d.len()) as nat) + d
    } else {
        d
    }
}

/// The power of ten with exponent `k`.
pub open spec fn pow10(k: nat) -> nat
    decreases k,
{
    if k == 0 {
        1
    } else {
        10 * pow10((k - 1) as nat)
    }
}

proof fn lemma_pow10_step(k: nat)
    requires
        k >= 1,
    ensures
        pow10(k) == 10 * pow10((k - 1) as nat),
{
}

proof fn lemma_pow10_20()
    ensures
        pow10(20) > u64::MAX,
{
    reveal_with_fuel(pow10, 21);
}

/// The number that a text of digits with one more digit behind it denotes.
pub proof fn lemma_digits_value_push(s: Seq<char>, c: char)
    ensures
        digits_value(s.push(c)) == digits_value(s) * 10 + digit_value(c),
{
    assert(s.push(c).drop_last() =~= s);
}

/// A longer prefix of a text of digits denotes no smaller number.
pub proof fn lemma_digits_value_prefix(s: Seq<char>, i: int, j: int)
    requires
        0 <= i <= j <= s.len(),
        all_digits(s),
    ensures
        digits_value(s.take(i)) <= digits_value(s.take(j)),
    decreases j - i,
{
    if i < j {
        lemma_digits_value_prefix(s, i, j - 1);
        assert(s.take(j).drop_last() =~= s.take(j - 1));
    }
}

/// A text of `n` digits denotes a number below the `n`th power of ten.
pub proof fn lemma_digits_value_bound(s: Seq<char>)
    requires
        all_digits(s),
    ensures
        digits_value(s) < pow10(s.len()),
    decreases s.len(),
{
    if s.len() > 0 {
        lemma_digits_value_bound(s.drop_last());
    }
}

/// Zeros in front of a text of digits do not change the number.
pub proof fn lemma_digits_value_zeros(k: nat, d: Seq<char>)
    ensures
        digits_value(zeros(k) + d) == digits_value(d),
    decreases d.len(), k,
{
    if d.len() > 0 {
        assert((zeros(k) + d).drop_last() =~= zeros(k) + d.drop_last());
        lemma_digits_value_zeros(k, d.drop_last());
    } else if k > 0 {
        assert((zeros(k) + d).drop_last() =~= zeros((k - 1) as nat) + d);
        lemma_digits_value_zeros((k - 1) as nat, d);
    }
}

/// A number in decimal is a text of digits, not empty, that denotes the
/// number.
pub proof fn lemma_decimal(n: nat)
    ensures
        all_digits(decimal(n)),
        decimal(n).len() >= 1,
        digits_value(decimal(n)) == n,
    decreases n,
{
    if n < 10 {
        lemma_digits_value_push(Seq::<char>::empty(), digit_char(n));
    } else {
        lemma_decimal(n / 10);
        lemma_digits_value_push(decimal(n / 10), digit_char(n % 10));
    }
}

/// A number below the `k`th power of ten has at most `k` digits.
pub proof fn lemma_decimal_len(n: nat, k: nat)
    requires
        k >= 1,
        n < pow10(k),
    ensures
        decimal(n).len() <= k,
    decreases n,
{
    if n >= 10 {
        if k == 1 {
            reveal_with_fuel(pow10, 2);
        } else {
            lemma_decimal_len(n / 10, (k - 1) as nat);
        }
    }
}

/// A padded number is a text of digits that denotes the number; it has
/// `width` characters where the number has no more digits than that.
pub proof fn lemma_padded(n: nat, width: nat)
    ensures
        all_digits(padded(n, width)),
        padded(n, width).len() >= 1,
        digits_value(padded(n, width)) == n,
        decimal(n).len() <= width ==> padded(n, width).len() == width,
{
    lemma_decimal(n);
    if decimal(n).len() < width {
        lemma_digits_value_zeros((width - decimal(n).len()) as nat, decimal(n));
    }
}

/// The run of digits at the start of a text that is made of digits and of
/// something that does not begin with a digit.
pub proof fn lemma_scan_digits(d: Seq<char>, rest: Seq<char>)
    requires
        all_digits(d),
        rest.len() == 0 || !is_digit(rest[0]),
    ensures
        scan(d + rest, CharClass::Digit, 0) == d.len(),
        (d + rest).take(d.len() as int) == d,
        (d + rest).skip(d.len() as int) == rest,
{
    lemma_scan_is(d + rest, CharClass::Digit, 0, d.len() as int);
}

/// Reads the first `n` characters of `s`, all decimal digits, as a number.
pub(crate) fn digits_to_u64(s: &str, n: usize) -> (r: Option<u64>)
    requires
        n <= s@.len(),
        all_digits(s@.take(n as int)),
    ensures
        match r {
            Some(v) => v == digits_value(s@.take(n as int)),
            None => digits_value(s@.take(n as int)) > u64::MAX,
        },
{
    let mut acc: u64 = 0;
    let mut i: usize = 0;
    while i < n
        invariant
            i <= n <= s@.len(),
            all_digits(s@.take(n as int)),
            acc == digits_value(s@.take(i as int)),
        decreases n - i,
    {
        let c = s.get_char(i);
        let ghost t = s@.take(n as int);
        proof {
            assert(t[i as int] == c);
            assert(s@.take(i + 1).drop_last() =~= s@.take(i as int));
            assert(t.take(i + 1) =~= s@.take(i + 1));
            assert(t.take(n as int) =~= t);
            lemma_digits_value_prefix(t, i + 1, n as int);
        }
        let d: u64 = (c as u32 - 0x30) as u64;
        let next = match acc.checked_mul(10) {
            None => None,
            Some(m) => m.checked_add(d),
        };
        match next {
            None => {
                return None;
            },
            Some(v) => {
                acc = v;
            },
        }
        i = i + 1;
    }
    Some(acc)
}

fn digit_str(d: u64) -> (r: &'static str)
    requires
        d < 10,
    ensures
        r@ == seq![digit_char(d as nat)],
{
    proof {
        reveal_strlit("0");
        reveal_strlit("1");
        reveal_strlit("2");
        reveal_strlit("3");
        reveal_strlit("4");
        reveal_strlit("5");
        reveal_strlit("6");
        reveal_strlit("7");
        reveal_strlit("8");
        reveal_strlit("9");
    }
    let r = if d == 0 {
        "0"
    } else if d == 1 {
        "1"
    } else if d == 2 {
        "2"
    } else if d == 3 {
        "3"
    } else if d == 4 {
        "4"
    } else if d == 5 {
        "5"
    } else if d == 6 {
        "6"
    } else if d == 7 {
        "7"
    } else if d == 8 {
        "8"
    } else {
        "9"
    };
    r
}

/// Appends `n` in decimal to `out`.
pub fn push_decimal(out: &mut String, n: u64)
    ensures
        final(out)@ == old(out)@ + decimal(n as nat),
    decreases n,
{
    if n >= 10 {
        push_decimal(out, n / 10);
    }
    out.append(digit_str(n % 10));
}

/// Number of decimal digits of `n`.
pub fn decimal_len(n: u64) -> (k: usize)
    ensures
        k == decimal(n as nat).len(),
        1 <= k <= 20,
{
    let mut k: usize = 1;
    let mut m: u64 = n;
    proof {
        let p = pow10((k - 1) as nat);
        assert(m * p == n) by (nonlinear_arith)
            requires
                p == 1,
                m == n,
        ;
    }
    while m >= 10
        invariant
            1 <= k,
            k + decimal(m as nat).len() == decimal(n as nat).len() + 1,
            m * pow10((k - 1) as nat) <= n,
            k <= 20,
        decreases m,
    {
        proof {
            lemma_pow10_step(k as nat);
            assert((m / 10) * pow10(k as nat) <= n) by (nonlinear_arith)
                requires
                    m * pow10((k - 1) as nat) <= n,
                    pow10(k as nat) == 10 * pow10((k - 1) as nat),
                    m >= 0,
            ;
            if k == 20 {
                lemma_pow10_20();
                assert(false) by (nonlinear_arith)
                    requires
                        (m / 10) * pow10(20) <= n,
                        m >= 10,
                        pow10(20) > u64::MAX,
                        n <= u64::MAX,
                ;
            }
        }
        m = m / 10;
        k = k + 1;
    }
    k
}

/// Appends `n` in decimal to `out`, with zeros in front up to `width`
/// characters.
pub fn push_padded(out: &mut String, n: u64, width: usize)
    ensures
        final(out)@ == old(out)@ + padded(n as nat, width as nat),
{
    let k = decimal_len(n);
    let mut i: usize = k;
    while i < width
        invariant
            k == decimal(n as nat).len(),
            k <= i,
            i == k || i <= width,
            out@ == old(out)@ + zeros((i - k) as nat),
        decreases width - i,
    {
        proof {
            reveal_strlit("0");
        }
        out.append("0");
        i = i + 1;
    }
    push_decimal(out, n);
}

} // verus!
