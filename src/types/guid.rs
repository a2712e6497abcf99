//! A GUID in braces: hex groups of 8, 4, 4, 4 and 12 digits joined by `-`.
use vstd::prelude::*;
use super::{agrees, hex_group, spec_hex_group, spec_tag, tag_byte, Outcome, ParseError};
use crate::hex::pow16;
use super::lemma_pow16_12;

verus! {

/// A GUID as one 128-bit number, the first group most significant.
pub type Guid = u128;

/// A `-` and then a group of `n` hex digits.
pub open spec fn spec_dash_group(s: Seq<u8>, n: int) -> Outcome<u64> {
    match spec_tag(s, seq![0x2du8]) {
        Err(e) => Err(e),
        Ok((r, _)) => spec_hex_group(r, n),
    }
}

/// The number that the five groups spell together.
pub open spec fn guid_value(a: u64, b: u64, c: u64, d: u64, e: u64) -> int {
    (((a * 0x10000 + b) * 0x10000 + c) * 0x10000 + d) * 0x1000000000000 + e
}

/// `{`, the five groups, `}`.
pub open spec fn spec_parse(s: Seq<u8>) -> Outcome<u128> {
    match spec_tag(s, seq![0x7bu8]) {
        Err(e) => Err(e),
        Ok((r0, _)) => match spec_hex_group(r0, 8) {
            Err(e) => Err(e),
            Ok((r1, a)) => match spec_dash_group(r1, 4) {
                Err(e) => Err(e),
                Ok((r2, b)) => match spec_dash_group(r2, 4) {
                    Err(e) => Err(e),
                    Ok((r3, c)) => match spec_dash_group(r3, 4) {
                        Err(e) => Err(e),
                        Ok((r4, d)) => match spec_dash_group(r4, 12) {
                            Err(e) => Err(e),
                            Ok((r5, e)) => match spec_tag(r5, seq![0x7du8]) {
                                Err(err) => Err(err),
                                Ok((r6, _)) => Ok((r6, guid_value(a, b, c, d, e) as u128)),
                            },
                        },
                    },
                },
            },
        },
    }
}

fn dash_group(input: &[u8], n: usize) -> (r: Result<(&[u8], u64), ParseError>)
    requires
        n <= 12,
    ensures
        agrees(r, spec_dash_group(input@, n as int)),
        r matches Ok((_, v)) ==> v < pow16(n as nat),
{
    let (rest, _) = tag_byte(input, 0x2d)?;
    hex_group(rest, n)
}

/// Reads a GUID in braces.
pub fn parse(input: &[u8]) -> (r: Result<(&[u8], Guid), ParseError>)
    ensures
        agrees(r, spec_parse(input@)),
{
    let (r0, _) = tag_byte(input, 0x7b)?;
    let (r1, a) = hex_group(r0, 8)?;
    let (r2, b) = dash_group(r1, 4)?;
    let (r3, c) = dash_group(r2, 4)?;
    let (r4, d) = dash_group(r3, 4)?;
    let (r5, e) = dash_group(r4, 12)?;
    let (r6, _) = tag_byte(r5, 0x7d)?;
    proof {
        lemma_pow16_12();
        reveal_with_fuel(pow16, 9);
        lemma_guid_bounds(a, b, c, d, e);
    }
    let v: u128 = (((a as u128 * 0x10000 + b as u128) * 0x10000 + c as u128) * 0x10000 + d as u128)
        * 0x1000000000000 + e as u128;
    Ok((r6, v))
}

proof fn lemma_guid_bounds(a: u64, b: u64, c: u64, d: u64, e: u64)
    by (nonlinear_arith)
    requires
        a < 0x100000000,
        b < 0x10000,
        c < 0x10000,
        d < 0x10000,
        e < 0x1000000000000,
    ensures
        a * 0x10000 + b < 0x1000000000000,
        (a * 0x10000 + b) * 0x10000 + c < 0x10000000000000000,
        ((a * 0x10000 + b) * 0x10000 + c) * 0x10000 + d < 0x100000000000000000000,
        guid_value(a, b, c, d, e) < 0x100000000000000000000000000000000,
{
}

} // verus!
