//! Character strings as sequences: the few operations on `String` that the
//! compiler stages share.

use vstd::prelude::*;

verus! {

/// `String::push` of the standard library. Its documentation says that it
/// appends the given character to the end of the string; nothing more is
/// claimed here.
pub assume_specification[ String::push ](s: &mut String, ch: char)
    ensures
        final(s)@ == old(s)@.push(ch),
;

/// The characters of `text`, in order, as a vector that can be indexed in
/// constant time.
pub fn chars_of(text: &str) -> (chars: Vec<char>)
    ensures
        chars@ == text@,
{
    let mut chars: Vec<char> = Vec::new();
    for ch in it: text.chars()
        invariant
            chars@ == it.seq().take(it.index() as int),
            it.seq() == text@,
    {
        chars.push(ch);
    }
    chars
}

/// The character of a decimal digit.
pub open spec fn digit_char(digit: nat) -> char
    recommends
        digit < 10,
{
    ('0' as nat + digit) as char
}

/// The decimal digits of `value`, most significant first, without leading
/// zeros (a single `0` for zero).
pub open spec fn digits_of(value: nat) -> Seq<char>
    decreases value,
{
    if value < 10 {
        seq![digit_char(value)]
    } else {
        digits_of(value / 10).push(digit_char(value % 10))
    }
}

/// An integer in decimal, with a minus sign where it is negative.
pub open spec fn decimal(value: int) -> Seq<char> {
    if value < 0 {
        seq!['-'] + digits_of((-value) as nat)
    } else {
        digits_of(value as nat)
    }
}

/// Appends the decimal digits of `value` to `text`.
pub fn push_digits(text: &mut String, value: u64)
    ensures
        final(text)@ == old(text)@ + digits_of(value as nat),
    decreases value,
{
    if value >= 10 {
        push_digits(text, value / 10);
    }
    let digit: u8 = (value % 10) as u8;
    text.push((48u8 + digit) as char);
}

/// `value` in decimal.
pub fn decimal_string(value: i64) -> (text: String)
    ensures
        text@ == decimal(value as int),
{
    let mut text = String::new();
    if value < 0 {
        text.push('-');
        let magnitude: u64 = (-(value + 1)) as u64 + 1;
        push_digits(&mut text, magnitude);
    } else {
        push_digits(&mut text, value as u64);
    }
    text
}

} // verus!
