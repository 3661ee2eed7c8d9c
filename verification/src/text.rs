//! Numbers as hexadecimal text.

use vstd::prelude::*;

verus! {

/// `String::push` appends one character to the string.
pub assume_specification[ String::push ](s: &mut String, c: char)
    ensures
        final(s)@ == old(s)@.push(c),
;

/// The lower-case hexadecimal digit for `d`, a value below 16.
pub open spec fn hex_digit(d: int) -> char {
    if d == 0 {
        '0'
    } else if d == 1 {
        '1'
    } else if d == 2 {
        '2'
    } else if d == 3 {
        '3'
    } else if d == 4 {
        '4'
    } else if d == 5 {
        '5'
    } else if d == 6 {
        '6'
    } else if d == 7 {
        '7'
    } else if d == 8 {
        '8'
    } else if d == 9 {
        '9'
    } else if d == 10 {
        'a'
    } else if d == 11 {
        'b'
    } else if d == 12 {
        'c'
    } else if d == 13 {
        'd'
    } else if d == 14 {
        'e'
    } else {
        'f'
    }
}

/// `v` in lower-case hexadecimal, without leading zeros; zero is "0".
pub open spec fn hex_digits(v: nat) -> Seq<char>
    decreases v,
{
    if v < 16 {
        seq![hex_digit(v as int)]
    } else {
        hex_digits(v / 16).push(hex_digit((v % 16) as int))
    }
}

/// `v` in lower-case hexadecimal, with zeros in front up to `width`
/// characters.
pub open spec fn hex_padded(v: nat, width: nat) -> Seq<char> {
    let digits = hex_digits(v);
    if width > digits.len() {
        zeros((width - digits.len()) as nat) + digits
    } else {
        digits
    }
}

/// `n` zero characters.
pub open spec fn zeros(n: nat) -> Seq<char> {
    Seq::new(n, |i: int| '0')
}

/// `v` in lower-case hexadecimal after the prefix "0x".
pub open spec fn hex_prefixed(v: nat) -> Seq<char> {
    seq!['0', 'x'] + hex_digits(v)
}

/// The lower-case hexadecimal digit for `d`.
pub fn hex_char(d: u8) -> (c: char)
    requires
        d < 16,
    ensures
        c == hex_digit(d as int),
{
    if d == 0 {
        '0'
    } else if d == 1 {
        '1'
    } else if d == 2 {
        '2'
    } else if d == 3 {
        '3'
    } else if d == 4 {
        '4'
    } else if d == 5 {
        '5'
    } else if d == 6 {
        '6'
    } else if d == 7 {
        '7'
    } else if d == 8 {
        '8'
    } else if d == 9 {
        '9'
    } else if d == 10 {
        'a'
    } else if d == 11 {
        'b'
    } else if d == 12 {
        'c'
    } else if d == 13 {
        'd'
    } else if d == 14 {
        'e'
    } else {
        'f'
    }
}

/// Appends `v` in hexadecimal to `s`.
pub fn push_hex(s: &mut String, v: usize)
    ensures
        final(s)@ == old(s)@ + hex_digits(v as nat),
    decreases v,
{
    if v >= 16 {
        push_hex(s, v / 16);
    }
    s.push(hex_char((v % 16) as u8));
    assert(s@ =~= old(s)@ + hex_digits(v as nat));
}

/// The decimal digit for `d`, a value below 10.
pub open spec fn dec_digit(d: int) -> char {
    hex_digit(d)
}

/// `v` in decimal, without leading zeros; zero is "0".
pub open spec fn dec_digits(v: nat) -> Seq<char>
    decreases v,
{
    if v < 10 {
        seq![dec_digit(v as int)]
    } else {
        dec_digits(v / 10).push(dec_digit((v % 10) as int))
    }
}

/// Appends `v` in decimal to `s`.
pub fn push_dec(s: &mut String, v: usize)
    ensures
        final(s)@ == old(s)@ + dec_digits(v as nat),
    decreases v,
{
    if v >= 10 {
        push_dec(s, v / 10);
    }
    s.push(hex_char((v % 10) as u8));
    assert(s@ =~= old(s)@ + dec_digits(v as nat));
}

/// The number of hexadecimal digits of `v`.
pub fn hex_len(v: usize) -> (n: usize)
    ensures
        n == hex_digits(v as nat).len(),
        1 <= n <= v + 1,
    decreases v,
{
    if v < 16 {
        1
    } else {
        1 + hex_len(v / 16)
    }
}

/// Appends `v` in hexadecimal to `s`, with zeros in front up to `width`
/// characters.
pub fn push_hex_padded(s: &mut String, v: usize, width: usize)
    ensures
        final(s)@ == old(s)@ + hex_padded(v as nat, width as nat),
{
    let digits = hex_len(v);
    let pad = if width > digits {
        width - digits
    } else {
        0
    };
    let mut i: usize = 0;
    while i < pad
        invariant
            i <= pad,
            s@ == old(s)@ + zeros(i as nat),
        decreases pad - i,
    {
        s.push('0');
        assert(s@ =~= old(s)@ + zeros((i + 1) as nat));
        i = i + 1;
    }
    push_hex(s, v);
    assert(s@ =~= old(s)@ + hex_padded(v as nat, width as nat));
}

} // verus!
