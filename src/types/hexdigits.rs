//! A run of hex digit pairs, each read as one byte.
use vstd::prelude::*;
use super::{agrees, skip, ErrorKind, Outcome, ParseError, rest_after};
use crate::hex::{hex_from_u8_slice, hex_pair_value, is_hex, is_hex_digit};

verus! {

/// The bytes read.
pub type HexDigits = Vec<u8>;

/// Two hex digits, read as one byte.
pub open spec fn spec_pair(s: Seq<u8>) -> Outcome<u8> {
    if s.len() >= 2 && is_hex_digit(s[0]) && is_hex_digit(s[1]) {
        Ok((skip(s, 2), hex_pair_value(s[0], s[1])))
    } else {
        Err((s, ErrorKind::TakeWhileMN))
    }
}

/// Prepends bytes read earlier to the bytes of an outcome.
pub open spec fn prefixed(p: Seq<u8>, o: Outcome<Seq<u8>>) -> Outcome<Seq<u8>> {
    match o {
        Ok((rest, v)) => Ok((rest, p + v)),
        Err(e) => Err(e),
    }
}

/// Pairs after `count` have been read: as many as follow, up to `max` in
/// all; where fewer than `min` are found, the failure of the next.
pub open spec fn spec_pairs(s: Seq<u8>, min: int, max: int, count: int) -> Outcome<Seq<u8>>
    decreases max - count,
{
    if count >= max {
        Ok((s, Seq::empty()))
    } else {
        match spec_pair(s) {
            Ok((rest, b)) => prefixed(seq![b], spec_pairs(rest, min, max, count + 1)),
            Err(e) => if count < min {
                Err(e)
            } else {
                Ok((s, Seq::empty()))
            },
        }
    }
}

/// Between `min / 2` and `max / 2` pairs of hex digits, that is `min` to
/// `max` digits.
pub open spec fn spec_parse(s: Seq<u8>, min: int, max: int) -> Outcome<Seq<u8>> {
    spec_pairs(s, min / 2, max / 2, 0)
}

fn parse_hex_pair(input: &[u8]) -> (r: Result<(&[u8], u8), ParseError>)
    ensures
        agrees(r, spec_pair(input@)),
{
    if input.len() >= 2 && is_hex(input[0]) && is_hex(input[1]) {
        Ok((rest_after(input, 2), hex_from_u8_slice(input)))
    } else {
        Err(ParseError::new(input, ErrorKind::TakeWhileMN))
    }
}

/// Reads `min` to `max` hex digits, two at a time, into bytes.
pub fn parse(input: &[u8], min: usize, max: usize) -> (r: Result<(&[u8], HexDigits), ParseError>)
    ensures
        agrees(r, spec_parse(input@, min as int, max as int)),
{
    let lo = min / 2;
    let hi = max / 2;
    let mut cur = input;
    let mut out: Vec<u8> = Vec::new();
    let mut count: usize = 0;
    while count < hi
        invariant
            count <= hi,
            lo == min / 2,
            hi == max / 2,
            spec_pairs(input@, lo as int, hi as int, 0) == prefixed(
                out@,
                spec_pairs(cur@, lo as int, hi as int, count as int),
            ),
        decreases hi - count,
    {
        match parse_hex_pair(cur) {
            Ok((rest, b)) => {
                let ghost tail = spec_pairs(rest@, lo as int, hi as int, count + 1);
                assert(prefixed(out@, prefixed(seq![b], tail)) == prefixed(out@.push(b), tail)) by {
                    if let Ok((r, v)) = tail {
                        assert(out@ + (seq![b] + v) =~= out@.push(b) + v);
                    }
                }
                out.push(b);
                cur = rest;
                count += 1;
            },
            Err(e) => {
                if count < lo {
                    return Err(e);
                }
                assert(out@ + Seq::<u8>::empty() =~= out@);
                return Ok((cur, out));
            },
        }
    }
    assert(out@ + Seq::<u8>::empty() =~= out@);
    Ok((cur, out))
}

} // verus!
