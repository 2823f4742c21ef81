//! Character-level building blocks: decimal and hexadecimal digits.

use vstd::prelude::*;

verus! {

/// The decimal digit character for `d` (0 to 9).
pub open spec fn digit_char(d: int) -> char {
    if d == 0 { '0' }
    else if d == 1 { '1' }
    else if d == 2 { '2' }
    else if d == 3 { '3' }
    else if d == 4 { '4' }
    else if d == 5 { '5' }
    else if d == 6 { '6' }
    else if d == 7 { '7' }
    else if d == 8 { '8' }
    else { '9' }
}

/// The decimal notation of `n`, without sign or leading zeros.
pub open spec fn decimal(n: nat) -> Seq<char>
    decreases n,
{
    if n < 10 {
        seq![digit_char(n as int)]
    } else {
        decimal(n / 10).push(digit_char((n % 10) as int))
    }
}

/// A one-character string holding the decimal digit `d`.
pub fn digit_text(d: usize) -> (s: &'static str)
    requires
        d < 10,
    ensures
        s@ == seq![digit_char(d as int)],
        s@[0] as u32 == 48 + d,
{
    proof { lemma_digit_code(d as int); }
    match d {
        0 => { proof { reveal_strlit("0"); } "0" },
        1 => { proof { reveal_strlit("1"); } "1" },
        2 => { proof { reveal_strlit("2"); } "2" },
        3 => { proof { reveal_strlit("3"); } "3" },
        4 => { proof { reveal_strlit("4"); } "4" },
        5 => { proof { reveal_strlit("5"); } "5" },
        6 => { proof { reveal_strlit("6"); } "6" },
        7 => { proof { reveal_strlit("7"); } "7" },
        8 => { proof { reveal_strlit("8"); } "8" },
        _ => { proof { reveal_strlit("9"); } "9" },
    }
}

/// Renders `n` in decimal, as `format!("{}", n)` does.
pub fn decimal_text(n: usize) -> (s: String)
    ensures
        s@ == decimal(n as nat),
    decreases n,
{
    if n < 10 {
        let mut s = String::new();
        s.append(digit_text(n));
        s
    } else {
        let mut s = decimal_text(n / 10);
        s.append(digit_text(n % 10));
        s
    }
}

/// The hexadecimal digit character for `d` (0 to 15), upper case.
pub open spec fn hex_digit_char(d: int) -> char {
    if d < 10 { digit_char(d) }
    else if d == 10 { 'A' }
    else if d == 11 { 'B' }
    else if d == 12 { 'C' }
    else if d == 13 { 'D' }
    else if d == 14 { 'E' }
    else { 'F' }
}

/// The two upper-case hexadecimal digits of a byte, as `{:02X}` prints it.
pub open spec fn hex_byte(b: u8) -> Seq<char> {
    seq![hex_digit_char(b as int / 16), hex_digit_char(b as int % 16)]
}

/// A one-character string holding the upper-case hexadecimal digit `d`.
pub fn hex_digit_text(d: u8) -> (s: &'static str)
    requires
        d < 16,
    ensures
        s@ == seq![hex_digit_char(d as int)],
        s@[0] as u32 == (if d < 10 { 48 + d } else { 65 + (d - 10) }),
{
    proof { lemma_hex_digit_code(d as int); }
    if d < 10 {
        digit_text(d as usize)
    } else if d == 10 {
        proof { reveal_strlit("A"); }
        "A"
    } else if d == 11 {
        proof { reveal_strlit("B"); }
        "B"
    } else if d == 12 {
        proof { reveal_strlit("C"); }
        "C"
    } else if d == 13 {
        proof { reveal_strlit("D"); }
        "D"
    } else if d == 14 {
        proof { reveal_strlit("E"); }
        "E"
    } else {
        proof { reveal_strlit("F"); }
        "F"
    }
}

/// Appends the two hexadecimal digits of `b` to `out`.
pub fn append_hex_byte(out: &mut String, b: u8)
    ensures
        final(out)@ == old(out)@ + hex_byte(b),
{
    out.append(hex_digit_text(b / 16));
    out.append(hex_digit_text(b % 16));
}

/// The decimal digit for `d` is the character whose code is that of `0`
/// plus `d`.
pub proof fn lemma_digit_code(d: int)
    requires
        0 <= d < 10,
    ensures
        digit_char(d) as u32 == 48 + d,
{
}

/// Upper-case hexadecimal digits: `0` to `9` for 0 to 9, then `A` to `F`
/// for 10 to 15, each the character whose code is that of `0` (or `A`)
/// plus the digit's offset.
pub proof fn lemma_hex_digit_code(d: int)
    requires
        0 <= d < 16,
    ensures
        hex_digit_char(d) as u32 == (if d < 10 { 48 + d } else { 65 + (d - 10) }),
{
}

/// The value of an upper-case hexadecimal digit character, read from its
/// code.
pub open spec fn hex_value(c: char) -> int {
    if (c as u32) < 65 { c as u32 - 48 } else { c as u32 - 55 }
}

/// Whether `c` is one of `0`-`9` or `A`-`F`.
pub open spec fn is_upper_hex_digit(c: char) -> bool {
    (48 <= c as u32 <= 57) || (65 <= c as u32 <= 70)
}

/// The two digits of a byte are upper-case hexadecimal digits, high digit
/// first, and reading them back gives the byte.
pub proof fn lemma_hex_byte_reads_back(b: u8)
    ensures
        hex_byte(b).len() == 2,
        is_upper_hex_digit(hex_byte(b)[0]),
        is_upper_hex_digit(hex_byte(b)[1]),
        16 * hex_value(hex_byte(b)[0]) + hex_value(hex_byte(b)[1]) == b,
{
    lemma_hex_digit_code(b as int / 16);
    lemma_hex_digit_code(b as int % 16);
}

} // verus!
