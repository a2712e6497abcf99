//! A decimal number, perhaps negative, that fits 32 bits.
use vstd::prelude::*;
use super::{agrees, skip, ErrorKind, Outcome, ParseError, rest_after};

verus! {

/// The number read.
pub type Int32 = i32;

/// An ASCII decimal digit.
pub open spec fn is_digit(b: u8) -> bool {
    0x30 <= b <= 0x39
}

/// How many decimal digits follow `start` in a row.
pub open spec fn digit_run(s: Seq<u8>, start: int) -> int
    decreases s.len() - start,
{
    if start < 0 || start >= s.len() || !is_digit(s[start]) {
        0
    } else {
        1 + digit_run(s, start + 1)
    }
}

/// The number that decimal digits spell.
pub open spec fn decimal(s: Seq<u8>) -> nat
    decreases s.len(),
{
    if s.len() == 0 {
        0
    } else {
        decimal(s.drop_last()) * 10 + (s.last() - 0x30) as nat
    }
}

/// An optional `-` and all the digits that follow; fails where there is no
/// digit, or where the number does not fit 32 bits.
pub open spec fn spec_parse(s: Seq<u8>) -> Outcome<i32> {
    let start: int = if s.len() >= 1 && s[0] == 0x2d { 1 } else { 0 };
    let n = digit_run(s, start);
    if n == 0 {
        Err((skip(s, start), ErrorKind::Digit))
    } else {
        let v = decimal(s.subrange(start, start + n));
        let value: int = if start == 1 { -v } else { v as int };
        if i32::MIN <= value <= i32::MAX {
            Ok((skip(s, start + n), value as i32))
        } else {
            Err((s, ErrorKind::MapRes))
        }
    }
}

/// Past this the number fits no 32-bit integer, negative or not.
const CAP: u64 = 2147483649;

proof fn lemma_digit_run_bound(s: Seq<u8>, start: int)
    requires
        0 <= start <= s.len(),
    ensures
        0 <= digit_run(s, start) <= s.len() - start,
    decreases s.len() - start,
{
    if start < s.len() && is_digit(s[start]) {
        lemma_digit_run_bound(s, start + 1);
    }
}

/// A number is read from the bytes at hand: the rest is shorter than the
/// input.
pub proof fn lemma_consumes(s: Seq<u8>)
    ensures
        spec_parse(s) matches Ok((r, _)) ==> r.len() < s.len(),
{
    let start: int = if s.len() >= 1 && s[0] == 0x2d { 1 } else { 0 };
    lemma_digit_run_bound(s, start);
}

proof fn lemma_digit_run(s: Seq<u8>, start: int, k: int)
    requires
        0 <= start,
        0 <= k,
        start + k <= s.len(),
        forall|j: int| start <= j < start + k ==> is_digit(#[trigger] s[j]),
    ensures
        digit_run(s, start) == k + digit_run(s, start + k),
    decreases k,
{
    if k > 0 {
        assert(is_digit(s[start]));
        lemma_digit_run(s, start + 1, k - 1);
    }
}

/// Reads a decimal number.
pub fn parse(input: &[u8]) -> (r: Result<(&[u8], Int32), ParseError>)
    ensures
        agrees(r, spec_parse(input@)),
{
    let ghost s = input@;
    let start: usize = if input.len() >= 1 && input[0] == 0x2d { 1 } else { 0 };
    let mut i: usize = start;
    let mut v: u64 = 0;
    while i < input.len() && 0x30 <= input[i] && input[i] <= 0x39
        invariant
            start <= i <= s.len(),
            s == input@,
            forall|j: int| start <= j < i ==> is_digit(#[trigger] s[j]),
            v == (if decimal(s.subrange(start as int, i as int)) > CAP {
                CAP as nat
            } else {
                decimal(s.subrange(start as int, i as int))
            }),
        decreases s.len() - i,
    {
        let d = (input[i] - 0x30) as u64;
        proof {
            let p = s.subrange(start as int, i as int + 1);
            assert(p.drop_last() =~= s.subrange(start as int, i as int));
        }
        if v < CAP {
            v = v * 10 + d;
            if v > CAP {
                v = CAP;
            }
        }
        i += 1;
    }
    let n = i - start;
    proof {
        lemma_digit_run(s, start as int, n as int);
    }
    if n == 0 {
        return Err(ParseError::new(rest_after(input, start), ErrorKind::Digit));
    }
    if start == 1 {
        if v > 2147483648 {
            return Err(ParseError::new(input, ErrorKind::MapRes));
        }
        let value: i32 = if v == 2147483648 { i32::MIN } else { -(v as i32) };
        Ok((rest_after(input, i), value))
    } else {
        if v > 2147483647 {
            return Err(ParseError::new(input, ErrorKind::MapRes));
        }
        Ok((rest_after(input, i), v as i32))
    }
}

} // verus!
