//! Human-readable messages: decimal and hexadecimal numbers, and the texts of
//! the structural errors.
use vstd::prelude::*;

verus! {

/// The decimal digit character for `d` (`0 <= d < 10`).
pub open spec fn digit_char(d: int) -> char {
    (48 + d) as char
}

/// The upper-case hexadecimal digit character for `d` (`0 <= d < 16`).
pub open spec fn hex_char(d: int) -> char {
    if d < 10 {
        (48 + d) as char
    } else {
        (55 + d) as char
    }
}

/// The decimal representation of `n`, without leading zeros.
pub open spec fn decimal(n: nat) -> Seq<char>
    decreases n,
{
    if n < 10 {
        seq![digit_char(n as int)]
    } else {
        decimal(n / 10).push(digit_char((n % 10) as int))
    }
}

/// The two upper-case hexadecimal digits of a byte.
pub open spec fn hex_byte(b: u8) -> Seq<char> {
    seq![hex_char((b / 16) as int), hex_char((b % 16) as int)]
}

/// Text of an `InvalidLength` error.
pub open spec fn invalid_length_text(expected: usize, actual: usize) -> Seq<char> {
    "invalid length: expected="@ + decimal(expected as nat) + ", actual="@ + decimal(actual as nat)
}

/// Text of a `BufferTooSmall` error.
pub open spec fn buffer_too_small_text(required: usize, capacity: usize) -> Seq<char> {
    "buffer too small: required="@ + decimal(required as nat) + ", capacity="@ + decimal(
        capacity as nat,
    )
}

/// Calls `String::push`, which appends `c` to `s`.
#[verifier::external_body]
pub(crate) fn push_char(s: &mut String, c: char)
    ensures
        final(s)@ == old(s)@.push(c),
{
    s.push(c);
}

/// Appends the decimal representation of `n`.
pub(crate) fn push_decimal(s: &mut String, n: u64)
    ensures
        final(s)@ == old(s)@ + decimal(n as nat),
    decreases n,
{
    if n >= 10 {
        push_decimal(s, n / 10);
    }
    let d = (n % 10) as u8;
    push_char(s, (48u8 + d) as char);
    assert(s@ =~= old(s)@ + decimal(n as nat));
}

/// Appends the two upper-case hexadecimal digits of `b`.
pub(crate) fn push_hex_byte(s: &mut String, b: u8)
    ensures
        final(s)@ == old(s)@ + hex_byte(b),
{
    let hi = b / 16;
    let lo = b % 16;
    let c_hi = if hi < 10 {
        (48u8 + hi) as char
    } else {
        (55u8 + hi) as char
    };
    let c_lo = if lo < 10 {
        (48u8 + lo) as char
    } else {
        (55u8 + lo) as char
    };
    push_char(s, c_hi);
    push_char(s, c_lo);
    assert(s@ =~= old(s)@ + hex_byte(b));
}

/// Appends the text of an `InvalidLength` error.
pub(crate) fn push_invalid_length(s: &mut String, expected: usize, actual: usize)
    ensures
        final(s)@ == old(s)@ + invalid_length_text(expected, actual),
{
    s.append("invalid length: expected=");
    push_decimal(s, expected as u64);
    s.append(", actual=");
    push_decimal(s, actual as u64);
    assert(s@ =~= old(s)@ + invalid_length_text(expected, actual));
}

/// Appends the text of a `BufferTooSmall` error.
pub(crate) fn push_buffer_too_small(s: &mut String, required: usize, capacity: usize)
    ensures
        final(s)@ == old(s)@ + buffer_too_small_text(required, capacity),
{
    s.append("buffer too small: required=");
    push_decimal(s, required as u64);
    s.append(", capacity=");
    push_decimal(s, capacity as u64);
    assert(s@ =~= old(s)@ + buffer_too_small_text(required, capacity));
}

} // verus!
