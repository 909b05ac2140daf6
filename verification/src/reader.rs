//! Bounded-region reader and big-endian field readers.
//!
//! `split_region` is the single primitive behind every length-prefixed
//! container: it hands back exactly the declared number of bytes as the
//! in-bounds region, so no inner decoder can read past an outer boundary.

use crate::IsisError;
use vstd::prelude::*;

verus! {

/// Big-endian 16-bit value of the two bytes of `s` starting at `i`.
pub open spec fn spec_be_u16(s: Seq<u8>, i: int) -> u16
    recommends
        0 <= i,
        i + 2 <= s.len(),
{
    ((s[i] as int) * 0x100 + (s[i + 1] as int)) as u16
}

/// Big-endian 32-bit value of the four bytes of `s` starting at `i`.
pub open spec fn spec_be_u32(s: Seq<u8>, i: int) -> u32
    recommends
        0 <= i,
        i + 4 <= s.len(),
{
    ((s[i] as int) * 0x1000000 + (s[i + 1] as int) * 0x10000 + (s[i + 2] as int) * 0x100 + (s[
        i + 3
    ] as int)) as u32
}

/// The two big-endian bytes of a 16-bit value.
pub open spec fn spec_be_u16_bytes(v: u16) -> Seq<u8> {
    seq![(v / 0x100) as u8, (v % 0x100) as u8]
}

/// The four big-endian bytes of a 32-bit value.
pub open spec fn spec_be_u32_bytes(v: u32) -> Seq<u8> {
    seq![
        (v / 0x1000000) as u8,
        ((v / 0x10000) % 0x100) as u8,
        ((v / 0x100) % 0x100) as u8,
        (v % 0x100) as u8,
    ]
}

/// Re-encoding a decoded big-endian 16-bit field reproduces its two source
/// bytes exactly.
pub proof fn lemma_be_u16_round_trip(s: Seq<u8>, i: int)
    requires
        0 <= i,
        i + 2 <= s.len(),
    ensures
        spec_be_u16_bytes(spec_be_u16(s, i)) == s.subrange(i, i + 2),
{
    let a = s[i] as int;
    let b = s[i + 1] as int;
    let v = spec_be_u16(s, i) as int;
    assert(v == a * 0x100 + b);
    assert(v / 0x100 == a && v % 0x100 == b) by (nonlinear_arith)
        requires
            0 <= a < 0x100,
            0 <= b < 0x100,
            v == a * 0x100 + b,
    ;
    assert(spec_be_u16_bytes(spec_be_u16(s, i)) =~= s.subrange(i, i + 2));
}

/// Re-encoding a decoded big-endian 32-bit field reproduces its four source
/// bytes exactly.
pub proof fn lemma_be_u32_round_trip(s: Seq<u8>, i: int)
    requires
        0 <= i,
        i + 4 <= s.len(),
    ensures
        spec_be_u32_bytes(spec_be_u32(s, i)) == s.subrange(i, i + 4),
{
    let a = s[i] as int;
    let b = s[i + 1] as int;
    let c = s[i + 2] as int;
    let d = s[i + 3] as int;
    let v = spec_be_u32(s, i) as int;
    assert(v == a * 0x1000000 + b * 0x10000 + c * 0x100 + d);
    assert(v / 0x1000000 == a && (v / 0x10000) % 0x100 == b && (v / 0x100) % 0x100 == c && v
        % 0x100 == d) by (nonlinear_arith)
        requires
            0 <= a < 0x100,
            0 <= b < 0x100,
            0 <= c < 0x100,
            0 <= d < 0x100,
            v == a * 0x1000000 + b * 0x10000 + c * 0x100 + d,
    ;
    assert(spec_be_u32_bytes(spec_be_u32(s, i)) =~= s.subrange(i, i + 4));
}

/// Reads a big-endian 16-bit field at byte offset `pos`.
pub fn read_be_u16(input: &[u8], pos: usize) -> (v: u16)
    requires
        pos + 2 <= input@.len(),
    ensures
        v == spec_be_u16(input@, pos as int),
{
    let hi = input[pos];
    let lo = input[pos + 1];
    (hi as u16) * 0x100 + (lo as u16)
}

/// Reads a big-endian 32-bit field at byte offset `pos`.
pub fn read_be_u32(input: &[u8], pos: usize) -> (v: u32)
    requires
        pos + 4 <= input@.len(),
    ensures
        v == spec_be_u32(input@, pos as int),
{
    let b0 = input[pos];
    let b1 = input[pos + 1];
    let b2 = input[pos + 2];
    let b3 = input[pos + 3];
    (b0 as u32) * 0x1000000 + (b1 as u32) * 0x10000 + (b2 as u32) * 0x100 + (b3 as u32)
}

/// Splits `input` into a region of exactly `len` bytes and the remainder.
///
/// All recursive decoding of a declared-length payload operates only on the
/// region; the remainder is what the enclosing decoder continues with.
pub fn split_region<'a>(input: &'a [u8], len: usize) -> (r: Result<
    (&'a [u8], &'a [u8]),
    IsisError,
>)
    ensures
        len <= input@.len() ==> (r matches Ok((region, rest)) && region@ == input@.take(len as int)
            && rest@ == input@.skip(len as int)),
        len > input@.len() ==> (r matches Err(e) && e == IsisError::TruncatedInput),
{
    if len <= input.len() {
        let (region, rest) = input.split_at(len);
        Ok((region, rest))
    } else {
        Err(IsisError::TruncatedInput)
    }
}

} // verus!
