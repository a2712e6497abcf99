//! The small grammars that the PROJECT stream is built from.
//!
//! Each parser takes the input and returns what it read together with the
//! input that follows, or an error that holds the input where the failing
//! rule stood and the kind of rule. Alongside each parser stands a spec
//! function of the same grammar, over byte sequences, which the parser's
//! contract follows exactly.
use vstd::prelude::*;
use vstd::slice::slice_to_vec;
use crate::hex::{all_hex, hex_digit_value, hex_number, is_hex, is_hex_digit, pow16};

pub mod guid;
pub mod hex_int_32;
pub mod hexdigits;
pub mod int_32;
pub mod module_identifier;
pub mod new_line;
pub mod path;
pub mod quoted_character;
pub mod quoted_characters;
pub mod whitespace;

verus! {

/// The kind of rule that failed.
#[derive(Debug, PartialEq, Eq, Clone, Copy)]
pub enum ErrorKind {
    /// A fixed text did not follow.
    Tag,
    /// Fewer bytes of a class than the rule asks for.
    TakeWhileMN,
    /// A group that should be hex digits is not.
    HexDigit,
    /// The input ended before a fixed count of bytes.
    Eof,
    /// No decimal digit where one is required.
    Digit,
    /// The text was read but its value cannot be had.
    MapRes,
    /// None of the allowed bytes.
    OneOf,
}

/// A failed parse: the input where the failing rule stood, and its kind.
#[derive(Debug, PartialEq, Eq)]
pub struct ParseError {
    pub input: Vec<u8>,
    pub kind: ErrorKind,
}

impl ParseError {
    /// An error at `input`.
    pub fn new(input: &[u8], kind: ErrorKind) -> (r: ParseError)
        ensures
            r.input@ == input@,
            r.kind == kind,
    {
        ParseError { input: slice_to_vec(input), kind }
    }
}

/// What a parser yields, over byte sequences: the rest of the input and the
/// value read, or the input where the failing rule stood and its kind.
pub type Outcome<V> = Result<(Seq<u8>, V), (Seq<u8>, ErrorKind)>;

/// A parser's result agrees with the outcome that its grammar gives.
pub open spec fn agrees<T: View>(r: Result<(&[u8], T), ParseError>, o: Outcome<T::V>) -> bool {
    match r {
        Ok((rest, v)) => o == Ok::<(Seq<u8>, T::V), (Seq<u8>, ErrorKind)>((rest@, v@)),
        Err(e) => o == Err::<(Seq<u8>, T::V), (Seq<u8>, ErrorKind)>((e.input@, e.kind)),
    }
}

/// The input after the first `n` bytes.
pub open spec fn skip(s: Seq<u8>, n: int) -> Seq<u8> {
    s.subrange(n, s.len() as int)
}

/// The input starts with the text `t`.
pub open spec fn starts_with(s: Seq<u8>, t: Seq<u8>) -> bool {
    s.len() >= t.len() && s.subrange(0, t.len() as int) == t
}

/// A fixed text.
pub open spec fn spec_tag(s: Seq<u8>, t: Seq<u8>) -> Outcome<()> {
    if starts_with(s, t) {
        Ok((skip(s, t.len() as int), ()))
    } else {
        Err((s, ErrorKind::Tag))
    }
}

/// The input after the first `n` bytes.
pub fn rest_after(input: &[u8], n: usize) -> (r: &[u8])
    requires
        n <= input@.len(),
    ensures
        r@ == skip(input@, n as int),
{
    input.split_at(n).1
}

/// Reads the fixed text `t`.
pub fn tag<'a>(input: &'a [u8], t: &[u8]) -> (r: Result<(&'a [u8], ()), ParseError>)
    ensures
        agrees(r, spec_tag(input@, t@)),
{
    if input.len() < t.len() {
        return Err(ParseError::new(input, ErrorKind::Tag));
    }
    let mut i: usize = 0;
    while i < t.len()
        invariant
            i <= t@.len() <= input@.len(),
            forall|j: int| 0 <= j < i ==> input@[j] == #[trigger] t@[j],
        decreases t@.len() - i,
    {
        if input[i] != t[i] {
            assert(input@.subrange(0, t@.len() as int)[i as int] != t@[i as int]);
            return Err(ParseError::new(input, ErrorKind::Tag));
        }
        i += 1;
    }
    assert(input@.subrange(0, t@.len() as int) =~= t@);
    Ok((rest_after(input, t.len()), ()))
}

/// Reads the single byte `b`.
pub fn tag_byte<'a>(input: &'a [u8], b: u8) -> (r: Result<(&'a [u8], ()), ParseError>)
    ensures
        agrees(r, spec_tag(input@, seq![b])),
{
    if input.len() >= 1 && input[0] == b {
        assert(input@.subrange(0, 1) =~= seq![b]);
        Ok((rest_after(input, 1), ()))
    } else {
        proof {
            if input@.len() >= 1 {
                assert(input@.subrange(0, 1)[0] == input@[0]);
            }
        }
        Err(ParseError::new(input, ErrorKind::Tag))
    }
}

/// Exactly `n` hex digits, read as a number.
pub open spec fn spec_hex_group(s: Seq<u8>, n: int) -> Outcome<u64> {
    if s.len() < n {
        Err((s, ErrorKind::Eof))
    } else if all_hex(s.subrange(0, n)) {
        Ok((skip(s, n), hex_number(s.subrange(0, n)) as u64))
    } else {
        Err((s.subrange(0, n), ErrorKind::HexDigit))
    }
}

/// Reads exactly `n` hex digits as a number.
pub fn hex_group(input: &[u8], n: usize) -> (r: Result<(&[u8], u64), ParseError>)
    requires
        n <= 12,
    ensures
        agrees(r, spec_hex_group(input@, n as int)),
        r matches Ok((_, v)) ==> v < pow16(n as nat),
{
    if input.len() < n {
        return Err(ParseError::new(input, ErrorKind::Eof));
    }
    let (group, rest) = input.split_at(n);
    let mut v: u64 = 0;
    let mut i: usize = 0;
    proof {
        lemma_pow16_12();
    }
    while i < n
        invariant
            i <= n <= 12,
            group@.len() == n,
            n <= input@.len(),
            group@ == input@.subrange(0, n as int),
            all_hex(group@.subrange(0, i as int)),
            v == hex_number(group@.subrange(0, i as int)),
            v < pow16(i as nat),
            pow16(12) == 0x1000000000000,
        decreases n - i,
    {
        if !is_hex(group[i]) {
            assert(!all_hex(group@)) by {
                assert(!is_hex_digit(group@[i as int]));
            }
            return Err(ParseError::new(group, ErrorKind::HexDigit));
        }
        let d = hex_digit_value(group[i]);
        proof {
            let p = group@.subrange(0, i as int + 1);
            assert(p.drop_last() =~= group@.subrange(0, i as int));
            assert(all_hex(p)) by {
                assert forall|j: int| 0 <= j < p.len() implies #[trigger] is_hex_digit(p[j]) by {
                    if j < i {
                        assert(group@.subrange(0, i as int)[j] == p[j]);
                    }
                }
            }
            lemma_pow16_monotone(i as nat + 1, 12);
            lemma_hex_step(v as nat, d as nat, pow16(i as nat));
        }
        v = v * 16 + d as u64;
        i += 1;
    }
    assert(group@.subrange(0, n as int) =~= group@);
    Ok((rest, v))
}

proof fn lemma_hex_step(v: nat, d: nat, p: nat)
    by (nonlinear_arith)
    requires
        v < p,
        d < 16,
    ensures
        v * 16 + d < 16 * p,
{
}

/// Powers of sixteen grow with the exponent.
pub proof fn lemma_pow16_monotone(a: nat, b: nat)
    requires
        a <= b,
    ensures
        pow16(a) <= pow16(b),
    decreases b - a,
{
    if a < b {
        lemma_pow16_monotone(a, (b - 1) as nat);
    }
}

/// Sixteen to the twelfth.
pub proof fn lemma_pow16_12()
    ensures
        pow16(12) == 0x1000000000000,
{
    reveal_with_fuel(pow16, 13);
}

} // verus!
