//! Unsigned integers written in decimal.

use vstd::prelude::*;

use crate::text;

verus! {

/// Why a text is no number.
#[derive(Debug, Clone, Copy, PartialEq, Eq, Structural)]
pub enum NumberFault {
    Empty,
    InvalidDigit,
    TooLarge,
}

/// The fault in words.
pub open spec fn fault_text(fault: NumberFault) -> Seq<char> {
    match fault {
        NumberFault::Empty => "cannot parse integer from empty string"@,
        NumberFault::InvalidDigit => "invalid digit found in string"@,
        NumberFault::TooLarge => "number too large to fit in target type"@,
    }
}

impl NumberFault {
    /// The fault in words.
    pub fn message(self) -> (text: &'static str)
        ensures
            text@ == fault_text(self),
    {
        match self {
            NumberFault::Empty => "cannot parse integer from empty string",
            NumberFault::InvalidDigit => "invalid digit found in string",
            NumberFault::TooLarge => "number too large to fit in target type",
        }
    }
}

/// Reads decimal digits behind a number that was read already, up to a maximum.
pub open spec fn digits_value(digits: Seq<char>, so_far: nat, max: nat) -> Result<nat, NumberFault>
    decreases digits.len(),
{
    if digits.len() == 0 {
        Ok(so_far)
    } else if !('0' <= digits[0] && digits[0] <= '9') {
        Err(NumberFault::InvalidDigit)
    } else {
        let next = (so_far * 10 + (digits[0] as nat - '0' as nat)) as nat;
        if next > max {
            Err(NumberFault::TooLarge)
        } else {
            digits_value(digits.skip(1), next, max)
        }
    }
}

/// The number that a text writes in decimal, with or without a `+` in front.
pub open spec fn number_value(s: Seq<char>, max: nat) -> Result<nat, NumberFault> {
    if s.len() == 0 {
        Err(NumberFault::Empty)
    } else if s[0] == '+' && s.len() > 1 {
        digits_value(s.skip(1), 0, max)
    } else {
        digits_value(s, 0, max)
    }
}

/// Reads a number of at most `max`.
pub fn parse_number(s: &str, max: u64) -> (result: Result<u64, NumberFault>)
    ensures
        match number_value(s@, max as nat) {
            Ok(n) => result matches Ok(r) && r == n,
            Err(fault) => result == Err::<u64, NumberFault>(fault),
        },
        result matches Ok(r) ==> r <= max,
{
    let chars: Vec<char> = text::chars_of(s);
    if chars.len() == 0 {
        return Err(NumberFault::Empty);
    }
    let mut i: usize = if chars[0] == '+' && chars.len() > 1 {
        1
    } else {
        0
    };
    let mut value: u64 = 0;
    assert(chars@.skip(0) =~= chars@);
    while i < chars.len()
        invariant
            i <= chars@.len(),
            chars@ == s@,
            value <= max,
            number_value(s@, max as nat) == digits_value(
                chars@.skip(i as int),
                value as nat,
                max as nat,
            ),
        decreases chars@.len() - i,
    {
        let c: char = chars[i];
        assert(chars@.skip(i as int)[0] == c);
        assert(chars@.skip(i as int).skip(1) =~= chars@.skip(i + 1));
        if !('0' <= c && c <= '9') {
            return Err(NumberFault::InvalidDigit);
        }
        let digit: u64 = (c as u32 - '0' as u32) as u64;
        if value > max / 10 || digit > max - value * 10 {
            return Err(NumberFault::TooLarge);
        }
        value = value * 10 + digit;
        i = i + 1;
    }
    Ok(value)
}

/// The decimal digits of a number.
pub open spec fn decimal(n: nat) -> Seq<char>
    decreases n,
{
    if n < 10 {
        seq![(n + '0' as nat) as char]
    } else {
        decimal(n / 10).push((n % 10 + '0' as nat) as char)
    }
}

/// Writes a number in decimal.
pub fn write_decimal(n: u64) -> (s: String)
    ensures
        s@ == decimal(n as nat),
    decreases n,
{
    if n < 10 {
        let mut s = String::new();
        s.push((n as u8 + 48) as char);
        assert(s@ =~= decimal(n as nat));
        s
    } else {
        let mut s: String = write_decimal(n / 10);
        s.push(((n % 10) as u8 + 48) as char);
        s
    }
}

} // verus!
