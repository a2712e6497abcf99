//! One character of a quoted string.
use vstd::prelude::*;
use super::{agrees, skip, ErrorKind, Outcome, ParseError, rest_after};

verus! {

/// The byte that a quoted character stands for.
pub type QuotedChar = u8;

/// A byte that stands for itself inside quotes: `!`, or `#` and above.
pub open spec fn is_plain(b: u8) -> bool {
    b >= 0x23 || b == 0x21
}

/// A plain byte, a space or tab, or a doubled `"` that stands for one `"`.
pub open spec fn spec_parse(s: Seq<u8>) -> Outcome<u8> {
    if s.len() >= 1 && (is_plain(s[0]) || s[0] == 0x20 || s[0] == 0x09) {
        Ok((skip(s, 1), s[0]))
    } else if s.len() >= 2 && s[0] == 0x22 && s[1] == 0x22 {
        Ok((skip(s, 2), 0x22u8))
    } else {
        Err((s, ErrorKind::TakeWhileMN))
    }
}

/// Reads one quoted character.
pub fn parse(input: &[u8]) -> (r: Result<(&[u8], QuotedChar), ParseError>)
    ensures
        agrees(r, spec_parse(input@)),
{
    if input.len() >= 1 && (input[0] >= 0x23 || input[0] == 0x21 || input[0] == 0x20 || input[0]
        == 0x09) {
        Ok((rest_after(input, 1), input[0]))
    } else if input.len() >= 2 && input[0] == 0x22 && input[1] == 0x22 {
        Ok((rest_after(input, 2), 0x22))
    } else {
        Err(ParseError::new(input, ErrorKind::TakeWhileMN))
    }
}

/// A doubled `"` reads as one `"`, whatever follows it.
pub proof fn lemma_doubled_quote(rest: Seq<u8>)
    ensures
        spec_parse(seq![0x22u8, 0x22u8] + rest) == Ok::<(Seq<u8>, u8), (Seq<u8>, ErrorKind)>(
            (rest, 0x22u8),
        ),
{
    let s = seq![0x22u8, 0x22u8] + rest;
    assert(s[0] == 0x22 && s[1] == 0x22);
    assert(skip(s, 2) =~= rest);
}

} // verus!
