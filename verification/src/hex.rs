//! Lower-case hexadecimal rendering of the numeric PDU fields.

use vstd::prelude::*;
use vstd::string::StringExecFns;

verus! {

/// The lower-case hex digit of a value below sixteen.
pub open spec fn spec_hex_digit(n: int) -> char
    recommends
        0 <= n < 16,
{
    if n == 0 {
        '0'
    } else if n == 1 {
        '1'
    } else if n == 2 {
        '2'
    } else if n == 3 {
        '3'
    } else if n == 4 {
        '4'
    } else if n == 5 {
        '5'
    } else if n == 6 {
        '6'
    } else if n == 7 {
        '7'
    } else if n == 8 {
        '8'
    } else if n == 9 {
        '9'
    } else if n == 10 {
        'a'
    } else if n == 11 {
        'b'
    } else if n == 12 {
        'c'
    } else if n == 13 {
        'd'
    } else if n == 14 {
        'e'
    } else {
        'f'
    }
}

/// The two hex digits of one byte.
pub open spec fn spec_hex2(b: u8) -> Seq<char> {
    seq![spec_hex_digit(b as int / 16), spec_hex_digit(b as int % 16)]
}

/// The four hex digits of a 16-bit value.
pub open spec fn spec_hex4(v: u16) -> Seq<char> {
    spec_hex2((v / 0x100) as u8) + spec_hex2((v % 0x100) as u8)
}

/// The eight hex digits of a 32-bit value.
pub open spec fn spec_hex8(v: u32) -> Seq<char> {
    spec_hex4((v / 0x10000) as u16) + spec_hex4((v % 0x10000) as u16)
}

/// The one-character string holding the hex digit of `n`.
fn hex_digit_str(n: u8) -> (r: &'static str)
    requires
        n < 16,
    ensures
        r@ == seq![spec_hex_digit(n as int)],
{
    let r: &'static str = match n {
        0 => "0",
        1 => "1",
        2 => "2",
        3 => "3",
        4 => "4",
        5 => "5",
        6 => "6",
        7 => "7",
        8 => "8",
        9 => "9",
        10 => "a",
        11 => "b",
        12 => "c",
        13 => "d",
        14 => "e",
        _ => "f",
    };
    proof {
        reveal_strlit("0");
        reveal_strlit("1");
        reveal_strlit("2");
        reveal_strlit("3");
        reveal_strlit("4");
        reveal_strlit("5");
        reveal_strlit("6");
        reveal_strlit("7");
        reveal_strlit("8");
        reveal_strlit("9");
        reveal_strlit("a");
        reveal_strlit("b");
        reveal_strlit("c");
        reveal_strlit("d");
        reveal_strlit("e");
        reveal_strlit("f");
        assert(r@ =~= seq![spec_hex_digit(n as int)]);
    }
    r
}

/// Appends one hex digit.
pub fn push_hex1(out: &mut String, n: u8)
    requires
        n < 16,
    ensures
        final(out)@ == old(out)@ + seq![spec_hex_digit(n as int)],
{
    out.append(hex_digit_str(n));
}

/// Appends the two hex digits of one byte.
pub fn push_hex2(out: &mut String, b: u8)
    ensures
        final(out)@ == old(out)@ + spec_hex2(b),
{
    out.append(hex_digit_str(b / 16));
    out.append(hex_digit_str(b % 16));
    proof {
        assert(out@ =~= old(out)@ + spec_hex2(b));
    }
}

/// Appends the four hex digits of a 16-bit value.
pub fn push_hex4(out: &mut String, v: u16)
    ensures
        final(out)@ == old(out)@ + spec_hex4(v),
{
    push_hex2(out, (v / 0x100) as u8);
    push_hex2(out, (v % 0x100) as u8);
    proof {
        assert(out@ =~= old(out)@ + spec_hex4(v));
    }
}

/// Appends the eight hex digits of a 32-bit value.
pub fn push_hex8(out: &mut String, v: u32)
    ensures
        final(out)@ == old(out)@ + spec_hex8(v),
{
    push_hex4(out, (v / 0x10000) as u16);
    push_hex4(out, (v % 0x10000) as u16);
    proof {
        assert(out@ =~= old(out)@ + spec_hex8(v));
    }
}

} // verus!
