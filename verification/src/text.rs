//! Decimal and hexadecimal text of numbers and bytes.
use vstd::prelude::*;

verus! {

/// Appends a character with `String::push`, which adds the character at the end.
#[verifier::external_body]
pub(crate) fn push_char(s: &mut String, c: char)
    ensures
        final(s)@ == old(s)@.push(c),
{
    s.push(c);
}

/// The character of a digit below 16: `0`-`9`, then `a`-`f`.
pub open spec fn hex_digit(d: nat) -> char {
    if d < 10 { (48 + d) as char } else { (87 + d) as char }
}

/// The decimal text of a number, without leading zeros.
pub open spec fn decimal(n: nat) -> Seq<char>
    decreases n,
{
    if n < 10 {
        seq![hex_digit(n)]
    } else {
        decimal(n / 10).push(hex_digit(n % 10))
    }
}

/// The lowercase hexadecimal text of bytes, two digits per byte, high digit first.
pub open spec fn hex_of(bytes: Seq<u8>) -> Seq<char>
    decreases bytes.len(),
{
    if bytes.len() == 0 {
        seq![]
    } else {
        hex_of(bytes.drop_last()) + seq![hex_digit(bytes.last() as nat / 16), hex_digit(bytes.last() as nat % 16)]
    }
}

/// The character of a digit below 16.
fn digit_char(d: u8) -> (c: char)
    requires
        d < 16,
    ensures
        c == hex_digit(d as nat),
{
    if d < 10 {
        (48u8 + d) as char
    } else {
        (87u8 + d) as char
    }
}

/// Appends the decimal text of `n`.
pub fn push_decimal(s: &mut String, n: usize)
    ensures
        final(s)@ == old(s)@ + decimal(n as nat),
    decreases n,
{
    if n < 10 {
        push_char(s, digit_char(n as u8));
        assert(old(s)@.push(hex_digit(n as nat)) =~= old(s)@ + seq![hex_digit(n as nat)]);
    } else {
        push_decimal(s, n / 10);
        push_char(s, digit_char((n % 10) as u8));
        assert(old(s)@ + decimal((n / 10) as nat) + seq![hex_digit((n % 10) as nat)] =~= old(s)@ + decimal(n as nat));
    }
}

/// The decimal text of `n`.
pub fn to_decimal(n: usize) -> (s: String)
    ensures
        s@ == decimal(n as nat),
{
    let mut s = String::new();
    push_decimal(&mut s, n);
    assert(s@ =~= decimal(n as nat));
    s
}

/// Appends the lowercase hexadecimal text of `bytes`.
pub fn push_hex(s: &mut String, bytes: &[u8])
    ensures
        final(s)@ == old(s)@ + hex_of(bytes@),
{
    let mut i: usize = 0;
    while i < bytes.len()
        invariant
            i <= bytes@.len(),
            s@ == old(s)@ + hex_of(bytes@.take(i as int)),
        decreases bytes@.len() - i,
    {
        let b = bytes[i];
        push_char(s, digit_char(b / 16));
        push_char(s, digit_char(b % 16));
        assert(bytes@.take(i + 1).drop_last() =~= bytes@.take(i as int));
        i = i + 1;
    }
    assert(bytes@.take(bytes@.len() as int) =~= bytes@);
}

} // verus!
