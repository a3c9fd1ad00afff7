//! Decimal notation for natural numbers.

use vstd::prelude::*;
use crate::text::push_char;

verus! {

/// True for the ten decimal digits `'0'` to `'9'`.
pub open spec fn is_digit(c: char) -> bool {
    '0' <= c <= '9'
}

/// The character that stands for the digit `d`, for `d` below ten.
pub open spec fn digit_char(d: nat) -> char {
    if d == 0 {
        '0'
    } else if d == 1 {
        '1'
    } else if d == 2 {
        '2'
    } else if d == 3 {
        '3'
    } else if d == 4 {
        '4'
    } else if d == 5 {
        '5'
    } else if d == 6 {
        '6'
    } else if d == 7 {
        '7'
    } else if d == 8 {
        '8'
    } else {
        '9'
    }
}

/// The number that a decimal digit stands for.
pub open spec fn digit_value(c: char) -> nat {
    (c as nat - '0' as nat) as nat
}

/// The decimal notation of `n`: no sign, no leading zero, `"0"` for zero.
pub open spec fn decimal(n: nat) -> Seq<char>
    decreases n,
{
    if n < 10 {
        seq![digit_char(n)]
    } else {
        decimal(n / 10).push(digit_char(n % 10))
    }
}

/// The number that a string of decimal digits denotes; zero for the empty string.
pub open spec fn decimal_value(s: Seq<char>) -> nat
    decreases s.len(),
{
    if s.len() == 0 {
        0
    } else {
        10 * decimal_value(s.drop_last()) + digit_value(s.last())
    }
}

/// Ten to the power `k`.
pub open spec fn pow10(k: nat) -> nat
    decreases k,
{
    if k == 0 {
        1
    } else {
        10 * pow10((k - 1) as nat)
    }
}

/// True when every character of `s` is a decimal digit.
pub open spec fn all_digits(s: Seq<char>) -> bool {
    forall|i: int| 0 <= i < s.len() ==> is_digit(#[trigger] s[i])
}

/// A digit's character is a digit and stands for that digit.
pub proof fn lemma_digit_char(d: nat)
    requires
        d < 10,
    ensures
        is_digit(digit_char(d)),
        digit_value(digit_char(d)) == d,
        (digit_char(d) == '0') == (d == 0),
{
}

/// The notation of a number consists of digits only, is never empty, and
/// starts with `'0'` only for zero itself.
pub proof fn lemma_decimal_digits(n: nat)
    ensures
        decimal(n).len() >= 1,
        all_digits(decimal(n)),
        (decimal(n)[0] == '0') == (n == 0),
    decreases n,
{
    if n < 10 {
        lemma_digit_char(n);
    } else {
        lemma_decimal_digits(n / 10);
        lemma_digit_char(n % 10);
    }
}

/// Reading back the notation of a number gives the number.
pub proof fn lemma_decimal_value(n: nat)
    ensures
        decimal_value(decimal(n)) == n,
    decreases n,
{
    let s = decimal(n);
    if n < 10 {
        lemma_digit_char(n);
        assert(s.last() == digit_char(n));
        assert(decimal_value(s.drop_last()) == 0);
    } else {
        lemma_decimal_value(n / 10);
        lemma_digit_char(n % 10);
        assert(s.last() == digit_char(n % 10));
        assert(s.drop_last() == decimal(n / 10));
        assert(decimal_value(s) == 10 * (n / 10) + n % 10);
    }
}

/// A number with `k` digits, that is one from `10^(k-1)` up to but not
/// including `10^k`, has a notation of length `k`.
pub proof fn lemma_decimal_len(n: nat, k: nat)
    requires
        k >= 1,
        pow10((k - 1) as nat) <= n < pow10(k),
    ensures
        decimal(n).len() == k,
    decreases k,
{
    if k == 1 {
        assert(pow10(1) == 10) by {
            reveal_with_fuel(pow10, 2);
        }
    } else {
        assert(pow10(k) == 10 * pow10((k - 1) as nat));
        assert(pow10((k - 1) as nat) == 10 * pow10((k - 2) as nat));
        assert(pow10((k - 2) as nat) >= 1) by {
            lemma_pow10_positive((k - 2) as nat);
        }
        lemma_decimal_len(n / 10, (k - 1) as nat);
    }
}

/// Every power of ten is at least one.
pub proof fn lemma_pow10_positive(k: nat)
    ensures
        pow10(k) >= 1,
    decreases k,
{
    if k > 0 {
        lemma_pow10_positive((k - 1) as nat);
    }
}

/// A string of digits that does not start with a superfluous zero is the
/// notation of the number it denotes.
pub proof fn lemma_value_decimal(s: Seq<char>)
    requires
        s.len() >= 1,
        all_digits(s),
        s.len() > 1 ==> s[0] != '0',
    ensures
        decimal(decimal_value(s)) == s,
        s.len() > 1 ==> decimal_value(s) >= 10,
    decreases s.len(),
{
    let last = s.last();
    let d = digit_value(last);
    assert(is_digit(last));
    assert(d < 10 && digit_char(d) == last);
    let front = s.drop_last();
    if s.len() == 1 {
        assert(decimal_value(front) == 0);
        assert(decimal_value(s) == d);
        assert(decimal(d) =~= s);
    } else {
        assert(all_digits(front)) by {
            assert forall|i: int| 0 <= i < front.len() implies is_digit(#[trigger] front[i]) by {
                assert(front[i] == s[i]);
            }
        }
        assert(front[0] == s[0]);
        lemma_value_decimal(front);
        let v = decimal_value(front);
        if front.len() == 1 {
            assert(is_digit(front[0]));
            assert(decimal_value(front.drop_last()) == 0);
        }
        assert(v >= 1);
        let n = decimal_value(s);
        assert(n == 10 * v + d);
        assert(n / 10 == v && n % 10 == d);
        assert(decimal(n) == decimal(v).push(digit_char(d)));
        assert(decimal(n) =~= s);
    }
}

/// The character of one digit.
fn digit_of(d: u64) -> (c: char)
    requires
        d < 10,
    ensures
        c == digit_char(d as nat),
{
    if d == 0 {
        '0'
    } else if d == 1 {
        '1'
    } else if d == 2 {
        '2'
    } else if d == 3 {
        '3'
    } else if d == 4 {
        '4'
    } else if d == 5 {
        '5'
    } else if d == 6 {
        '6'
    } else if d == 7 {
        '7'
    } else if d == 8 {
        '8'
    } else {
        '9'
    }
}

/// Appends the decimal notation of `n` to `out`.
pub fn push_decimal(out: &mut String, n: u64)
    ensures
        final(out)@ == old(out)@ + decimal(n as nat),
    decreases n,
{
    if n >= 10 {
        push_decimal(out, n / 10);
    }
    push_char(out, digit_of(n % 10));
}

/// The decimal notation of `n`, as `n.to_string()` gives it.
pub fn to_decimal(n: u64) -> (s: String)
    ensures
        s@ == decimal(n as nat),
{
    let mut s = String::new();
    push_decimal(&mut s, n);
    s
}

/// A string of `k` digits denotes a number below `10^k`, and one of at least
/// `10^(k-1)` where it does not start with a zero.
pub proof fn lemma_value_bounds(s: Seq<char>)
    requires
        s.len() >= 1,
        all_digits(s),
    ensures
        decimal_value(s) < pow10(s.len()),
        s[0] != '0' ==> decimal_value(s) >= pow10((s.len() - 1) as nat),
    decreases s.len(),
{
    let last = s.last();
    assert(is_digit(last));
    let front = s.drop_last();
    if s.len() == 1 {
        assert(decimal_value(front) == 0);
        assert(pow10(1) == 10) by {
            reveal_with_fuel(pow10, 2);
        }
        assert(is_digit(s[0]));
    } else {
        assert(all_digits(front)) by {
            assert forall|i: int| 0 <= i < front.len() implies is_digit(#[trigger] front[i]) by {
                assert(front[i] == s[i]);
            }
        }
        assert(front[0] == s[0]);
        lemma_value_bounds(front);
        assert(pow10(s.len()) == 10 * pow10(front.len()));
        assert(pow10(front.len()) == 10 * pow10((front.len() - 1) as nat));
    }
}

} // verus!
