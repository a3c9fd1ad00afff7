//! The pairing PIN: a code of six decimal digits that the desktop shows and
//! the remote device repeats.
//!
//! The PIN is a convenience for pairing, drawn from an ordinary random
//! source. It is no cryptographic secret.

use vstd::prelude::*;
use crate::decimal::{
    all_digits, decimal, decimal_value, lemma_decimal_digits, lemma_decimal_len,
    lemma_decimal_value, lemma_value_bounds, lemma_value_decimal, pow10, to_decimal,
};
use vstd::pervasive::unreached;
use crate::text::{chars_of, same_chars};

verus! {

/// The smallest number that a PIN denotes.
pub const PIN_MIN: u32 = 100_000;

/// The largest number that a PIN denotes.
pub const PIN_MAX: u32 = 999_999;

/// True for the text of a PIN: six decimal digits, the first of them not zero.
pub open spec fn is_pin(s: Seq<char>) -> bool {
    s.len() == 6 && all_digits(s) && s[0] != '0'
}

/// The notation of every number from `PIN_MIN` to `PIN_MAX` is a PIN that
/// denotes that number.
pub proof fn lemma_pin_of_number(n: nat)
    requires
        PIN_MIN <= n <= PIN_MAX,
    ensures
        is_pin(decimal(n)),
        decimal_value(decimal(n)) == n,
{
    assert(pow10(5) == 100_000 && pow10(6) == 1_000_000) by {
        reveal_with_fuel(pow10, 7);
    }
    lemma_decimal_len(n, 6);
    lemma_decimal_digits(n);
    lemma_decimal_value(n);
}

/// Every PIN denotes a number from `PIN_MIN` to `PIN_MAX` and is that
/// number's notation.
pub proof fn lemma_number_of_pin(s: Seq<char>)
    requires
        is_pin(s),
    ensures
        PIN_MIN <= decimal_value(s) <= PIN_MAX,
        decimal(decimal_value(s)) == s,
{
    assert(pow10(5) == 100_000 && pow10(6) == 1_000_000) by {
        reveal_with_fuel(pow10, 7);
    }
    lemma_value_bounds(s);
    lemma_value_decimal(s);
}

/// A pairing PIN.
#[derive(Clone, Copy, Debug)]
pub struct PinCode {
    number: u32,
}

impl View for PinCode {
    type V = Seq<char>;

    /// The six digits of the code. A code always holds a number from
    /// `PIN_MIN` to `PIN_MAX`; the view is defined for every value of the
    /// type, so that it is a PIN without further conditions.
    closed spec fn view(&self) -> Seq<char> {
        if PIN_MIN <= self.number <= PIN_MAX {
            decimal(self.number as nat)
        } else {
            decimal(PIN_MIN as nat)
        }
    }
}

impl PinCode {
    #[verifier::type_invariant]
    spec fn well_formed(self) -> bool {
        PIN_MIN <= self.number <= PIN_MAX
    }

    /// The text of every code is a PIN.
    pub proof fn lemma_is_pin(self)
        ensures
            is_pin(self@),
            PIN_MIN <= decimal_value(self@) <= PIN_MAX,
    {
        if PIN_MIN <= self.number <= PIN_MAX {
            lemma_pin_of_number(self.number as nat);
        } else {
            lemma_pin_of_number(PIN_MIN as nat);
        }
    }

    /// The PIN that denotes `number`; there is none outside `PIN_MIN` to
    /// `PIN_MAX`.
    pub fn from_number(number: u32) -> (pin: Option<PinCode>)
        ensures
            pin is Some == (PIN_MIN <= number <= PIN_MAX),
            pin matches Some(p) ==> p@ == decimal(number as nat) && is_pin(p@),
    {
        if PIN_MIN <= number && number <= PIN_MAX {
            proof {
                lemma_pin_of_number(number as nat);
            }
            Some(PinCode { number })
        } else {
            None
        }
    }

    /// The six digits of the PIN.
    pub fn digits(&self) -> (text: String)
        ensures
            text@ == self@,
            is_pin(text@),
    {
        proof {
            use_type_invariant(self);
            lemma_pin_of_number(self.number as nat);
        }
        to_decimal(self.number as u64)
    }

    /// The number that the PIN denotes.
    pub fn number(&self) -> (n: u32)
        ensures
            n == decimal_value(self@),
            PIN_MIN <= n <= PIN_MAX,
    {
        proof {
            use_type_invariant(self);
            lemma_pin_of_number(self.number as nat);
        }
        self.number
    }
}

/// A number drawn at random from `low` up to but not including `high`.
///
/// Trusted: calls `rand::random_range` with the range `low..high`, which
/// samples the thread-local generator and returns a value of that range. It
/// panics on an empty range, which the precondition excludes. It also
/// panics where the operating system's random source fails when the
/// generator of a thread is first seeded or reseeded; no argument causes
/// that and none prevents it. Nothing is claimed of how the values are
/// distributed.
#[verifier::external_body]
fn random_in(low: u32, high: u32) -> (n: u32)
    requires
        low < high,
    ensures
        low <= n < high,
{
    rand::random_range(low..high)
}

/// Draws a new PIN.
pub fn generate() -> (pin: PinCode)
    ensures
        is_pin(pin@),
        PIN_MIN <= decimal_value(pin@) <= PIN_MAX,
{
    let number = random_in(PIN_MIN, PIN_MAX + 1);
    match PinCode::from_number(number) {
        Some(pin) => {
            proof {
                lemma_decimal_value(number as nat);
            }
            pin
        },
        None => unreached(),
    }
}

/// Draws a new PIN and gives its text: six digits that denote a number from
/// `PIN_MIN` to `PIN_MAX`.
pub fn generate_pin() -> (text: String)
    ensures
        text@.len() == 6,
        is_pin(text@),
        PIN_MIN <= decimal_value(text@) <= PIN_MAX,
{
    let pin = generate();
    pin.digits()
}

/// Whether `candidate` is exactly the text of the PIN `expected`.
pub fn validate(candidate: &str, expected: &PinCode) -> (valid: bool)
    ensures
        valid == (candidate@ == expected@),
{
    let given = chars_of(candidate);
    let wanted = chars_of(expected.digits().as_str());
    same_chars(&given, &wanted)
}

} // verus!
