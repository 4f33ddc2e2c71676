//! Small verified text builders shared by the modules that produce strings:
//! decimal rendering of integers and padding.
use vstd::prelude::*;
use vstd::string::*;

verus! {

/// The ASCII digit for `d` (0 ≤ d < 10).
pub open spec fn digit_char(d: nat) -> char {
    (d + 48) as char
}

/// Decimal representation of a natural number, most significant digit first,
/// without leading zeros ("0" for zero).
pub open spec fn dec_digits(n: nat) -> Seq<char>
    decreases n,
{
    if n < 10 {
        seq![digit_char(n)]
    } else {
        dec_digits(n / 10).push(digit_char(n % 10))
    }
}

/// Decimal representation of an integer: a leading '-' for negative values.
pub open spec fn int_digits(i: int) -> Seq<char> {
    if i < 0 {
        seq!['-'] + dec_digits((-i) as nat)
    } else {
        dec_digits(i as nat)
    }
}

/// `s` padded on the left with spaces up to `width` characters
/// (unchanged when it is already at least that long).
pub open spec fn pad_left(s: Seq<char>, width: nat) -> Seq<char> {
    if s.len() >= width {
        s
    } else {
        Seq::new((width - s.len()) as nat, |i: int| ' ') + s
    }
}

/// Appends one character to a string (`String::push`).
#[verifier::external_body]
pub(crate) fn push_char(s: &mut String, c: char)
    ensures
        final(s)@ == old(s)@.push(c),
{
    s.push(c)
}

/// Appends the decimal digits of `n` to `s`.
pub fn write_decimal(s: &mut String, n: u64)
    ensures
        final(s)@ == old(s)@ + dec_digits(n as nat),
    decreases n,
{
    if n >= 10 {
        write_decimal(s, n / 10);
    }
    let d: u8 = (n % 10) as u8;
    let c: char = (d + 48) as char;
    push_char(s, c);
    proof {
        assert(c == digit_char((n % 10) as nat));
    }
}

/// The decimal digits of `n` as a new string.
pub fn decimal(n: u64) -> (s: String)
    ensures
        s@ == dec_digits(n as nat),
{
    let mut s = String::new();
    write_decimal(&mut s, n);
    proof { assert(s@ =~= dec_digits(n as nat)); }
    s
}

/// Appends the decimal digits of `n`, with a leading '-' when negative.
pub fn write_int(s: &mut String, n: i32)
    ensures
        final(s)@ == old(s)@ + int_digits(n as int),
{
    if n < 0 {
        push_char(s, '-');
        let m: u64 = (0i64 - (n as i64)) as u64;
        write_decimal(s, m);
        proof {
            assert(final(s)@ =~= old(s)@ + int_digits(n as int));
        }
    } else {
        write_decimal(s, n as u64);
    }
}

} // verus!
